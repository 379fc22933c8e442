//! Why a request is refused.

use vstd::prelude::*;

verus! {

/// A refused request, with the sentence the caller is sent.
#[derive(Debug)]
pub enum AppError {
    /// The request itself is malformed or over a bound. Answered `400`.
    BadRequest(String),
    /// The caller may not do this. Answered `403`.
    Forbidden(String),
    /// There is no such thing on this account. Answered `404`.
    NotFound(String),
    /// The caller is over an allowance. Answered `429`.
    TooManyRequests(String),
    /// The service has no room for anyone. Answered `503`.
    Overloaded(String),
    /// A feature this deployment has no credentials for. Answered `503`.
    NotConfigured(String),
    /// The language model could not be asked or did not answer. Answered `503`.
    Gemini(String),
    /// A document that does not have the shape it should have. Answered `400`.
    Serialization(String),
    /// Something inside the service went wrong. Answered `500`.
    Internal(String),
}

/// [`AppError`] with its sentence as mathematical text.
pub enum ErrorView {
    BadRequest(Seq<char>),
    Forbidden(Seq<char>),
    NotFound(Seq<char>),
    TooManyRequests(Seq<char>),
    Overloaded(Seq<char>),
    NotConfigured(Seq<char>),
    Gemini(Seq<char>),
    Serialization(Seq<char>),
    Internal(Seq<char>),
}

impl View for AppError {
    type V = ErrorView;

    open spec fn view(&self) -> ErrorView {
        match *self {
            AppError::BadRequest(s) => ErrorView::BadRequest(s@),
            AppError::Forbidden(s) => ErrorView::Forbidden(s@),
            AppError::NotFound(s) => ErrorView::NotFound(s@),
            AppError::TooManyRequests(s) => ErrorView::TooManyRequests(s@),
            AppError::Overloaded(s) => ErrorView::Overloaded(s@),
            AppError::NotConfigured(s) => ErrorView::NotConfigured(s@),
            AppError::Gemini(s) => ErrorView::Gemini(s@),
            AppError::Serialization(s) => ErrorView::Serialization(s@),
            AppError::Internal(s) => ErrorView::Internal(s@),
        }
    }
}

/// The HTTP status a refusal is answered with.
pub open spec fn status_of(e: ErrorView) -> u16 {
    match e {
        ErrorView::BadRequest(_) => 400,
        ErrorView::Serialization(_) => 400,
        ErrorView::Forbidden(_) => 403,
        ErrorView::NotFound(_) => 404,
        ErrorView::TooManyRequests(_) => 429,
        ErrorView::Internal(_) => 500,
        ErrorView::Overloaded(_) => 503,
        ErrorView::NotConfigured(_) => 503,
        ErrorView::Gemini(_) => 503,
    }
}

impl AppError {
    /// The HTTP status this refusal is answered with.
    pub fn status(&self) -> (code: u16)
        ensures
            code == status_of(self@),
    {
        match self {
            AppError::BadRequest(_) => 400,
            AppError::Serialization(_) => 400,
            AppError::Forbidden(_) => 403,
            AppError::NotFound(_) => 404,
            AppError::TooManyRequests(_) => 429,
            AppError::Internal(_) => 500,
            AppError::Overloaded(_) => 503,
            AppError::NotConfigured(_) => 503,
            AppError::Gemini(_) => 503,
        }
    }
}

/// A result with its refusal as mathematical text.
pub open spec fn outcome<T>(r: Result<T, AppError>) -> Result<T, ErrorView> {
    match r {
        Ok(v) => Ok(v),
        Err(e) => Err(e@),
    }
}

/// What the client did wrong is answered in the four hundreds, an allowance that ran out as
/// such, and what the service cannot do in the five hundreds; a refusal for want of capacity,
/// of credentials or of the model is one to come back from.
pub proof fn a_refusal_says_whose_doing_it_is(e: &AppError, code: u16)
    requires
        call_ensures(AppError::status, (e,), code),
    ensures
        e is BadRequest || e is Serialization ==> code == 400,
        e is Forbidden ==> code == 403,
        e is NotFound ==> code == 404,
        e is TooManyRequests ==> code == 429,
        e is Internal ==> code == 500,
        e is Overloaded || e is NotConfigured || e is Gemini ==> code == 503,
{
}

} // verus!
