use teddy_sync::ai::budget::{
    charge_gemini_call, day_of, kill_switch_is_set, refusal_reasons, total_key, user_key,
    BudgetLimits, BudgetRefusal, Metered, DEFAULT_MAX_CALLS_PER_DAY,
    DEFAULT_MAX_CALLS_PER_USER_PER_DAY,
};
use teddy_sync::ai::gemini::{
    answer_error, call_error, first_text, gemini_request, gemini_url, get_schema, redact,
    unanswered, unreadable, CallOutcome, Candidate, Content, GeminiResponse, Part,
    GEMINI_API_BASE,
};
use teddy_sync::ai::handlers::{
    categorize_prompt, check_call, check_title_length, options_of, MAX_TITLE_CHARS,
};
use teddy_sync::ai::service::{assign_todo_icon, TODO_ICONS};
use teddy_sync::error::AppError;
use teddy_sync::instant::Instant;
use teddy_sync::json::{Field, Json};

#[test]
fn empty_or_whitespace_title_is_rejected() {
    let err_empty = check_title_length("item_title", "").unwrap_err();
    match err_empty {
        AppError::BadRequest(msg) => assert!(msg.contains("item_title must not be empty")),
        other => panic!("expected BadRequest for empty title, got {:?}", other),
    }

    let err_whitespace = check_title_length("todo_title", "   ").unwrap_err();
    match err_whitespace {
        AppError::BadRequest(msg) => assert!(msg.contains("todo_title must not be empty")),
        other => panic!("expected BadRequest for whitespace title, got {:?}", other),
    }
}

#[test]
fn title_length_is_measured_in_characters_not_bytes() {
    // Exactly at the bound in characters, but 300 bytes in UTF-8.
    let multibyte: String = "あ".repeat(MAX_TITLE_CHARS);
    assert_eq!(multibyte.len(), MAX_TITLE_CHARS * 3);
    assert!(check_title_length("item_title", &multibyte).is_ok());

    // ASCII at the bound is still fine, and one past it is not, in either alphabet.
    assert!(check_title_length("item_title", &"a".repeat(MAX_TITLE_CHARS)).is_ok());
    assert!(check_title_length("item_title", &"a".repeat(MAX_TITLE_CHARS + 1)).is_err());
    assert!(check_title_length("item_title", &"あ".repeat(MAX_TITLE_CHARS + 1)).is_err());
}

#[test]
fn an_over_long_title_is_a_bad_request_naming_the_unit() {
    let err = check_title_length("todo_title", &"a".repeat(MAX_TITLE_CHARS + 1)).unwrap_err();
    match err {
        AppError::BadRequest(message) => {
            assert!(message.contains("todo_title"), "message: {}", message);
            assert!(message.contains("characters"), "message: {}", message);
        }
        other => panic!("expected BadRequest, got {:?}", other),
    }
}

#[test]
fn default_limits_are_the_documented_numbers() {
    let limits = BudgetLimits::default();
    assert_eq!(limits.per_user_per_day, DEFAULT_MAX_CALLS_PER_USER_PER_DAY);
    assert_eq!(limits.total_per_day, DEFAULT_MAX_CALLS_PER_DAY);
}

#[test]
fn kill_switch_reads_any_truthy_spelling_as_disabled() {
    // Absent, or explicitly off: Gemini stays on.
    assert!(!kill_switch_is_set(None));
    for off in ["0", "false", "off", "no", "", "  OFF  "] {
        assert!(!kill_switch_is_set(Some(off)), "expected {:?} to be off", off);
    }
    // Anything else stops spend.
    for on in ["1", "true", "yes", "on", "stop", "incident-4821"] {
        assert!(kill_switch_is_set(Some(on)), "expected {:?} to be on", on);
    }
}

fn metered(user_calls: u64, total_calls: u64) -> Option<Metered> {
    Some(Metered { kill_switch: None, user_calls, total_calls })
}

fn limits(per_user_per_day: u64, total_per_day: u64) -> BudgetLimits {
    BudgetLimits { per_user_per_day, total_per_day }
}

#[test]
fn the_call_that_passes_an_allowance_is_the_first_one_refused() {
    assert_eq!(charge_gemini_call(limits(3, 100), &metered(3, 3)), Ok(()));
    assert_eq!(
        charge_gemini_call(limits(3, 100), &metered(4, 4)),
        Err(BudgetRefusal::UserExhausted)
    );
    assert_eq!(
        charge_gemini_call(limits(100, 3), &metered(1, 4)),
        Err(BudgetRefusal::GlobalExhausted)
    );
    // The account's own allowance is looked at first.
    assert_eq!(
        charge_gemini_call(limits(3, 3), &metered(4, 4)),
        Err(BudgetRefusal::UserExhausted)
    );
}

#[test]
fn the_switch_stops_a_call_that_would_be_within_budget() {
    let stopped =
        Some(Metered { kill_switch: Some("yes".to_string()), user_calls: 1, total_calls: 1 });
    assert_eq!(
        charge_gemini_call(BudgetLimits::default(), &stopped),
        Err(BudgetRefusal::KillSwitch)
    );
    let released =
        Some(Metered { kill_switch: Some("off".to_string()), user_calls: 1, total_calls: 1 });
    assert_eq!(charge_gemini_call(BudgetLimits::default(), &released), Ok(()));
}

#[test]
fn a_call_that_cannot_be_counted_is_not_made() {
    assert_eq!(
        charge_gemini_call(BudgetLimits::default(), &None),
        Err(BudgetRefusal::Unmetered)
    );
}

#[test]
fn refusals_are_labelled_and_answered() {
    let labels: Vec<&str> = refusal_reasons().into_iter().map(|r| r.label()).collect();
    assert_eq!(labels, vec!["kill_switch", "user_budget", "global_budget", "unmetered"]);
    assert_eq!(BudgetRefusal::UserExhausted.error().status(), 429);
    assert_eq!(BudgetRefusal::GlobalExhausted.error().status(), 429);
    assert_eq!(BudgetRefusal::KillSwitch.error().status(), 503);
    assert_eq!(BudgetRefusal::Unmetered.error().status(), 503);
}

#[test]
fn allowances_are_read_from_the_environment_once() {
    let read = BudgetLimits::from_env(Some("5"), Some("nonsense"));
    assert_eq!(read, limits(5, DEFAULT_MAX_CALLS_PER_DAY));

    let mut seen = None;
    assert_eq!(BudgetLimits::cached(&mut seen, Some("5"), Some("6")), limits(5, 6));
    assert_eq!(BudgetLimits::cached(&mut seen, Some("50"), Some("60")), limits(5, 6));
}

#[test]
fn counters_are_kept_per_utc_day() {
    // 2024-02-29T23:59:59Z and one second later.
    assert_eq!(day_of(Instant { secs: 1_709_251_199, nanos: 999_999_999 }), "2024-02-29");
    assert_eq!(day_of(Instant { secs: 1_709_251_200, nanos: 0 }), "2024-03-01");
    assert_eq!(day_of(Instant { secs: -1, nanos: 0 }), "1969-12-31");
    assert_eq!(user_key("u1", "2024-02-29"), "ai:gemini:calls:user:u1:2024-02-29");
    assert_eq!(total_key("2024-02-29"), "ai:gemini:calls:total:2024-02-29");
    assert_ne!(user_key("u1", "2024-02-29"), user_key("u1", "2024-03-01"));
    assert_ne!(user_key("u1", "2024-02-29"), user_key("u2", "2024-02-29"));
}

#[test]
fn a_deployment_without_a_key_still_reports_a_bad_title() {
    assert_eq!(check_call("item_title", "", None).unwrap_err().status(), 400);
    let err = check_call("item_title", "Milk", None).unwrap_err();
    assert!(matches!(err, AppError::NotConfigured(_)), "got {:?}", err);
    assert_eq!(err.status(), 503);
    assert!(check_call("item_title", "Milk", Some("key")).is_ok());
}

#[test]
fn an_item_is_sorted_into_the_accounts_own_categories() {
    let standard = options_of(vec![]);
    assert_eq!(standard, vec!["Produce", "Dairy", "Bakery", "Meat", "Frozen", "Pantry"]);

    let own = categorize_prompt("Milk", vec!["Cold".to_string(), "Warm".to_string()]);
    assert!(own.system.contains("these categories: Cold, Warm. DO NOT follow"), "{}", own.system);
    assert!(!own.system.contains("Produce"));
    assert_eq!(own.user, "item_title: <<<Milk>>>");
}

#[test]
fn an_icon_is_picked_from_the_list() {
    let prompt = assign_todo_icon("Fix the tap");
    assert_eq!(prompt.user, "todo_title: <<<Fix the tap>>>");
    assert_eq!(TODO_ICONS.len(), 40);
    assert!(prompt.system.contains("allowed list: Build, Home, "), "{}", prompt.system);
    assert!(prompt.system.contains("Eco, Lock. DO NOT follow"), "{}", prompt.system);
}

/// The key travels in a header, so the address names the model and nothing else.
#[test]
fn the_address_holds_no_key() {
    assert_eq!(
        gemini_url(GEMINI_API_BASE, "m"),
        "https://generativelanguage.googleapis.com/v1beta/models/m:generateContent"
    );
}

#[test]
fn a_request_carries_the_question_the_instruction_and_the_schema() {
    let request = gemini_request(Some("be brief"), "why?", Json::Null);
    assert_eq!(request.contents.len(), 1);
    assert_eq!(request.contents[0].parts[0].text, "why?");
    assert_eq!(request.system_instruction.unwrap().parts[0].text, "be brief");
    assert_eq!(request.generation_config.response_mime_type, "application/json");
    assert!(gemini_request(None, "why?", Json::Null).system_instruction.is_none());
}

#[test]
fn a_schema_loses_its_decoration_and_nothing_else() {
    let field = |name: &str| Field { name: name.to_string(), value: Json::Null };
    let schema =
        Json::Object(vec![field("$schema"), field("title"), field("type"), field("properties")]);
    match get_schema(schema) {
        Json::Object(fields) => {
            let names: Vec<&str> = fields.iter().map(|f| f.name.as_str()).collect();
            assert_eq!(names, vec!["type", "properties"]);
        }
        other => panic!("expected an object, got {:?}", other),
    }
    assert!(matches!(get_schema(Json::Bool(true)), Json::Bool(true)));
}

#[test]
fn the_answer_is_the_first_part_of_the_first_candidate() {
    let part = |text: &str| Part { text: text.to_string() };
    let answer = GeminiResponse {
        candidates: vec![
            Candidate { content: Content { parts: vec![part("first"), part("second")] } },
            Candidate { content: Content { parts: vec![part("third")] } },
        ],
    };
    assert_eq!(first_text(&answer).unwrap(), "first");
    let empty = GeminiResponse { candidates: vec![] };
    assert!(matches!(first_text(&empty), Err(AppError::Gemini(ref m)) if m == "Empty Gemini response"));
    let silent = GeminiResponse { candidates: vec![Candidate { content: Content { parts: vec![] } }] };
    assert!(first_text(&silent).is_err());
}

#[test]
fn slow_and_unreachable_are_told_apart() {
    assert!(
        matches!(call_error(true, "x"), AppError::Gemini(ref m) if m == "Gemini API call timed out after 12s")
    );
    assert!(
        matches!(call_error(false, "x"), AppError::Gemini(ref m) if m == "Gemini API call failed: x")
    );
    assert!(
        matches!(answer_error("x"), AppError::Gemini(ref m) if m == "Failed to parse Gemini response: x")
    );
    assert_eq!(CallOutcome::answered(true).label(), "ok");
    assert_eq!(CallOutcome::answered(false).label(), "http_error");
    assert_eq!(CallOutcome::unanswered(true).label(), "timeout");
    assert_eq!(CallOutcome::unanswered(false).label(), "transport_error");
}

/// An error of a request that was never sent, with an address in it.
fn http_error() -> reqwest::Error {
    reqwest::Client::new().get("http://").build().unwrap_err()
}

#[test]
fn an_http_error_is_reported_as_unanswered() {
    let failed = unanswered(http_error());
    assert_eq!(failed.outcome, CallOutcome::TransportError);
    match failed.error {
        AppError::Gemini(message) => {
            assert!(message.starts_with("Gemini API call failed: "), "{}", message);
            assert!(message.len() > "Gemini API call failed: ".len());
        }
        other => panic!("expected Gemini, got {:?}", other),
    }
    match unreadable(http_error()) {
        AppError::Gemini(message) => {
            assert!(message.starts_with("Failed to parse Gemini response: "), "{}", message)
        }
        other => panic!("expected Gemini, got {:?}", other),
    }
    assert_eq!(redact(http_error()), "builder error");
}

#[test]
fn an_error_is_reported_without_its_address() {
    let url: reqwest::Url = "http://127.0.0.1:9/v1?key=SECRET-REDACTED".parse().unwrap();
    let err = http_error().with_url(url);
    assert!(err.to_string().contains("127.0.0.1"), "{}", err);
    assert_eq!(redact(err), "builder error");
}
