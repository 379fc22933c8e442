//! One round trip to the model.

use crate::error::{AppError, ErrorView};
use crate::json::{Field, Json};
use crate::text::{decimal, decimal_text, same_text};
use vstd::prelude::*;

verus! {

/// Where the model lives.
pub const GEMINI_API_BASE: &'static str = "https://generativelanguage.googleapis.com/v1beta";

/// The header the key travels in. It never stands in a URL, which others log.
pub const API_KEY_HEADER: &'static str = "x-goog-api-key";

/// The deadline for one round trip, in seconds.
pub const GEMINI_TIMEOUT_SECS: u64 = 12;

/// The deadline for connecting, in seconds.
pub const GEMINI_CONNECT_TIMEOUT_SECS: u64 = 5;

/// Where a model is asked.
pub open spec fn model_url(base: Seq<char>, model: Seq<char>) -> Seq<char> {
    base + "/models/"@ + model + ":generateContent"@
}

/// Where a model is asked. Nothing secret is part of it.
pub fn gemini_url(base_url: &str, model: &str) -> (url: String)
    ensures
        url@ == model_url(base_url@, model@),
{
    let mut s = base_url.to_owned();
    s.append("/models/");
    s.append(model);
    s.append(":generateContent");
    s
}

#[derive(Debug)]
pub struct Part {
    pub text: String,
}

#[derive(Debug)]
pub struct Content {
    pub parts: Vec<Part>,
}

#[derive(Debug)]
pub struct GenerationConfig {
    pub response_mime_type: String,
    pub response_schema: Option<Json>,
}

/// What the model is sent.
#[derive(Debug)]
pub struct GeminiRequest {
    pub contents: Vec<Content>,
    pub generation_config: GenerationConfig,
    pub system_instruction: Option<Content>,
}

/// Whether a content is one text.
pub open spec fn says(content: Content, text: Seq<char>) -> bool {
    content.parts@.len() == 1 && content.parts@[0].text@ == text
}

fn content_of(text: &str) -> (content: Content)
    ensures
        says(content, text@),
{
    let mut parts: Vec<Part> = Vec::new();
    parts.push(Part { text: text.to_owned() });
    Content { parts }
}

/// What the model is sent: the question, the instruction where there is one, and the schema
/// its JSON answer has to keep to.
pub fn gemini_request(system_prompt: Option<&str>, user_prompt: &str, schema: Json) -> (r:
    GeminiRequest)
    ensures
        r.contents@.len() == 1,
        says(r.contents@[0], user_prompt@),
        match system_prompt {
            Some(s) => r.system_instruction matches Some(c) && says(c, s@),
            None => r.system_instruction is None,
        },
        r.generation_config.response_mime_type@ == "application/json"@,
        r.generation_config.response_schema == Some(schema),
{
    let mut contents: Vec<Content> = Vec::new();
    contents.push(content_of(user_prompt));
    let system_instruction = match system_prompt {
        Some(s) => Some(content_of(s)),
        None => None,
    };
    GeminiRequest {
        contents,
        generation_config: GenerationConfig {
            response_mime_type: "application/json".to_owned(),
            response_schema: Some(schema),
        },
        system_instruction,
    }
}

/// Whether a member of a schema is of no use to the model.
pub open spec fn is_decoration(field: Field) -> bool {
    field.name@ == "$schema"@ || field.name@ == "title"@
}

/// The members of a schema that are of use to the model.
pub open spec fn useful(fields: Seq<Field>) -> Seq<Field>
    decreases fields.len(),
{
    if fields.len() == 0 {
        seq![]
    } else {
        let front = useful(fields.drop_last());
        if is_decoration(fields.last()) {
            front
        } else {
            front.push(fields.last())
        }
    }
}

/// A schema without its name and the name of its dialect, which the model does not accept.
pub fn get_schema(schema: Json) -> (plain: Json)
    ensures
        match schema {
            Json::Object(fields) => plain matches Json::Object(kept) && kept@ == useful(fields@),
            other => plain == other,
        },
{
    match schema {
        Json::Object(fields) => {
            let ghost all = fields@;
            let mut kept: Vec<Field> = Vec::new();
            assert(all.take(0) =~= seq![]);
            for field in it: fields.into_iter()
                invariant
                    it.seq() == all,
                    kept@ == useful(all.take(it.index() as int)),
            {
                let ghost at = it.index() as int;
                proof {
                    assert(field == all[at]);
                    assert(all.take(at + 1).drop_last() =~= all.take(at));
                    assert(all.take(at + 1).last() == all[at]);
                }
                if !same_text(field.name.as_str(), "$schema") && !same_text(
                    field.name.as_str(),
                    "title",
                ) {
                    kept.push(field);
                }
            }
            assert(all.take(all.len() as int) =~= all);
            Json::Object(kept)
        },
        other => other,
    }
}

#[derive(Debug)]
pub struct Candidate {
    pub content: Content,
}

/// What the model answers.
#[derive(Debug)]
pub struct GeminiResponse {
    pub candidates: Vec<Candidate>,
}

/// The text of an answer: the first part of the first candidate.
pub open spec fn answer_text(r: GeminiResponse) -> Option<Seq<char>> {
    if r.candidates@.len() > 0 && r.candidates@[0].content.parts@.len() > 0 {
        Some(r.candidates@[0].content.parts@[0].text@)
    } else {
        None
    }
}

/// The text of an answer, or the refusal of an empty one.
pub fn first_text(r: &GeminiResponse) -> (text: Result<String, AppError>)
    ensures
        match text {
            Ok(s) => answer_text(*r) == Some(s@),
            Err(e) => answer_text(*r) is None && e@ == ErrorView::Gemini("Empty Gemini response"@),
        },
{
    if r.candidates.len() > 0 {
        let candidate = &r.candidates[0];
        if candidate.content.parts.len() > 0 {
            return Ok(candidate.content.parts[0].text.clone());
        }
    }
    Err(AppError::Gemini("Empty Gemini response".to_owned()))
}

/// How a call came out, for the metrics.
#[derive(Debug, Clone, Copy, PartialEq, Eq, Structural)]
pub enum CallOutcome {
    Success,
    HttpError,
    Timeout,
    TransportError,
}

/// The metric label of an outcome.
pub open spec fn outcome_label(o: CallOutcome) -> Seq<char> {
    match o {
        CallOutcome::Success => "ok"@,
        CallOutcome::HttpError => "http_error"@,
        CallOutcome::Timeout => "timeout"@,
        CallOutcome::TransportError => "transport_error"@,
    }
}

impl CallOutcome {
    /// The outcome of a call that was answered.
    pub fn answered(success: bool) -> (o: CallOutcome)
        ensures
            o == (if success {
                CallOutcome::Success
            } else {
                CallOutcome::HttpError
            }),
    {
        if success {
            CallOutcome::Success
        } else {
            CallOutcome::HttpError
        }
    }

    /// The outcome of a call that was not.
    pub fn unanswered(timed_out: bool) -> (o: CallOutcome)
        ensures
            o == (if timed_out {
                CallOutcome::Timeout
            } else {
                CallOutcome::TransportError
            }),
    {
        if timed_out {
            CallOutcome::Timeout
        } else {
            CallOutcome::TransportError
        }
    }

    /// Stable, bounded metric label.
    pub fn label(self) -> (label: &'static str)
        ensures
            label@ == outcome_label(self),
    {
        match self {
            CallOutcome::Success => "ok",
            CallOutcome::HttpError => "http_error",
            CallOutcome::Timeout => "timeout",
            CallOutcome::TransportError => "transport_error",
        }
    }
}

/// How a call that was not answered is reported.
pub open spec fn call_failure(timed_out: bool, detail: Seq<char>) -> ErrorView {
    if timed_out {
        ErrorView::Gemini(
            "Gemini API call timed out after "@ + decimal(GEMINI_TIMEOUT_SECS as nat) + "s"@,
        )
    } else {
        ErrorView::Gemini("Gemini API call failed: "@ + detail)
    }
}

/// How a call that was not answered is reported: slow and unreachable are told apart.
pub fn call_error(timed_out: bool, detail: &str) -> (e: AppError)
    ensures
        e@ == call_failure(timed_out, detail@),
{
    if timed_out {
        let mut s = "Gemini API call timed out after ".to_owned();
        s.append(decimal_text(GEMINI_TIMEOUT_SECS as u128).as_str());
        s.append("s");
        AppError::Gemini(s)
    } else {
        let mut s = "Gemini API call failed: ".to_owned();
        s.append(detail);
        AppError::Gemini(s)
    }
}

/// How an answer that cannot be read is reported.
pub open spec fn unreadable_answer(detail: Seq<char>) -> ErrorView {
    ErrorView::Gemini("Failed to parse Gemini response: "@ + detail)
}

/// How an answer that cannot be read is reported.
pub fn answer_error(detail: &str) -> (e: AppError)
    ensures
        e@ == unreadable_answer(detail@),
{
    let mut s = "Failed to parse Gemini response: ".to_owned();
    s.append(detail);
    AppError::Gemini(s)
}

/// `reqwest::Error`: why a call was not answered, or its answer not read.
#[verifier::external_type_specification]
#[verifier::external_body]
pub struct ExHttpError(reqwest::Error);

/// Whether `reqwest::Error::is_timeout` holds of an error.
pub uninterp spec fn ran_out_of_time(err: reqwest::Error) -> bool;

/// What `reqwest::Error`'s `Display` writes once `without_url` has taken the URL out.
pub uninterp spec fn kind_text(err: reqwest::Error) -> Seq<char>;

/// `reqwest::Error::is_timeout`. What counts as a timeout is left to the crate; what is claimed
/// is that the answer depends on the error alone.
#[verifier::external_body]
fn is_timeout(err: &reqwest::Error) -> (timed_out: bool)
    ensures
        timed_out == ran_out_of_time(*err),
{
    err.is_timeout()
}

/// What an error says of a refused request: the status, and nothing that was asked for.
pub open spec fn is_status_text(s: Seq<char>) -> bool {
    exists|status: Seq<char>|
        s == #[trigger] ("HTTP status client error ("@ + status + ")"@) || s
            == "HTTP status server error ("@ + status + ")"@
}

/// Whether a text says what kind of error there was and ends with that, so that no URL
/// follows.
pub open spec fn is_kind_text(s: Seq<char>) -> bool {
    ||| s == "builder error"@
    ||| s == "error sending request"@
    ||| s == "request or response body error"@
    ||| s == "error decoding response body"@
    ||| s == "error following redirect"@
    ||| s == "error upgrading connection"@
    ||| is_status_text(s)
}

/// `reqwest::Error::without_url` and its `Display`, which writes the kind of the error and
/// then the URL where there is one. What is claimed is that the text depends on the error alone
/// and is that of a kind, with nothing after it.
#[verifier::external_body]
fn text_without_url(err: reqwest::Error) -> (s: String)
    ensures
        s@ == kind_text(err),
        is_kind_text(s@),
{
    err.without_url().to_string()
}

/// What an error says, without the URL it carries: the kind of the error is all that is left.
pub fn redact(err: reqwest::Error) -> (s: String)
    ensures
        s@ == kind_text(err),
        is_kind_text(s@),
{
    text_without_url(err)
}

/// What a call that failed comes to.
#[derive(Debug)]
pub struct FailedCall {
    pub outcome: CallOutcome,
    pub error: AppError,
}

/// What a call that was not answered comes to.
pub fn unanswered(err: reqwest::Error) -> (f: FailedCall)
    ensures
        f.error@ == call_failure(ran_out_of_time(err), kind_text(err)),
        f.outcome == (if ran_out_of_time(err) {
            CallOutcome::Timeout
        } else {
            CallOutcome::TransportError
        }),
        is_kind_text(kind_text(err)),
{
    let timed_out = is_timeout(&err);
    let detail = redact(err);
    FailedCall {
        outcome: CallOutcome::unanswered(timed_out),
        error: call_error(timed_out, detail.as_str()),
    }
}

/// What an answer that cannot be read comes to.
pub fn unreadable(err: reqwest::Error) -> (e: AppError)
    ensures
        e@ == unreadable_answer(kind_text(err)),
        is_kind_text(kind_text(err)),
{
    let detail = redact(err);
    answer_error(detail.as_str())
}

/// The members of a schema that reach the model are all of its own but its name and that of
/// its dialect, in their order; and what is no object stays what it is.
pub proof fn a_schema_keeps_all_but_its_names(schema: Json, plain: Json)
    requires
        call_ensures(get_schema, (schema,), plain),
    ensures
        match schema {
            Json::Object(fields) => plain matches Json::Object(kept) && kept@ == fields@.filter(
                |f: Field| f.name@ != "$schema"@ && f.name@ != "title"@,
            ),
            _ => plain == schema,
        },
{
    if let Json::Object(fields) = schema {
        useful_is_filtered(fields@);
    }
}

proof fn useful_is_filtered(fields: Seq<Field>)
    ensures
        useful(fields) == fields.filter(|f: Field| f.name@ != "$schema"@ && f.name@ != "title"@),
    decreases fields.len(),
{
    reveal(Seq::filter);
    if fields.len() > 0 {
        useful_is_filtered(fields.drop_last());
    }
}

/// The answer is the first part of the first candidate, and no answer is the model's failure.
pub proof fn an_answer_is_the_first_there_is(r: &GeminiResponse, text: Result<String, AppError>)
    requires
        call_ensures(first_text, (r,), text),
    ensures
        text is Ok <==> r.candidates@.len() > 0 && r.candidates@[0].content.parts@.len() > 0,
        text matches Ok(s) ==> s@ == r.candidates@[0].content.parts@[0].text@,
        text matches Err(e) ==> e@ is Gemini,
{
}

/// The model is asked what was to be asked, under the instruction there is, and answers in JSON
/// of the given shape; it is asked where it lives, and the key is no part of that.
pub proof fn the_model_is_asked_what_was_to_be_asked(
    system: Option<&str>,
    user: &str,
    schema: Json,
    r: GeminiRequest,
    base: &str,
    model: &str,
    url: String,
)
    requires
        call_ensures(gemini_request, (system, user, schema), r),
        call_ensures(gemini_url, (base, model), url),
    ensures
        r.contents@.len() == 1 && r.contents@[0].parts@.len() == 1 && r.contents@[0].parts@[0].text@
            == user@,
        system is None ==> r.system_instruction is None,
        system matches Some(s) ==> (r.system_instruction matches Some(c) && c.parts@.len() == 1
            && c.parts@[0].text@ == s@),
        r.generation_config.response_mime_type@ == "application/json"@,
        r.generation_config.response_schema == Some(schema),
        url@ == base@ + "/models/"@ + model@ + ":generateContent"@,
{
}

/// A call counts as a success, a refusal, a timeout or a failure to reach the model by how it
/// came out; slow and unreachable are reported as such, and either way as the model's failure.
pub proof fn a_call_counts_as_it_came_out(
    success: bool,
    answered: CallOutcome,
    timed_out: bool,
    unanswered: CallOutcome,
    detail: &str,
    e: AppError,
    unread: AppError,
)
    requires
        call_ensures(CallOutcome::answered, (success,), answered),
        call_ensures(CallOutcome::unanswered, (timed_out,), unanswered),
        call_ensures(call_error, (timed_out, detail), e),
        call_ensures(answer_error, (detail,), unread),
    ensures
        success ==> answered is Success,
        !success ==> answered is HttpError,
        timed_out ==> unanswered is Timeout,
        !timed_out ==> unanswered is TransportError,
        e@ == ErrorView::Gemini(
            if timed_out {
                "Gemini API call timed out after "@ + decimal(12) + "s"@
            } else {
                "Gemini API call failed: "@ + detail@
            },
        ),
        unread@ == ErrorView::Gemini("Failed to parse Gemini response: "@ + detail@),
{
}

} // verus!
