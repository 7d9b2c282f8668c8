//! The failures that the stores and the request handlers report.

use vstd::prelude::*;

verus! {

/// A store could not carry out an operation. Nothing of a failed operation
/// is applied.
#[derive(Clone, Copy, Debug, PartialEq, Eq, Structural)]
pub enum StorageError {
    /// A row with the same unique key is already stored.
    Conflict,
    /// A page was asked for with a negative limit.
    NegativeLimit,
    /// The backing store could not be reached or turned the operation down.
    Unavailable,
}

/// What a request handler answers in place of a result.
#[derive(Debug, PartialEq, Eq)]
pub enum ApiError {
    /// The caller has no valid session; nothing was read or written on its
    /// behalf.
    Unauthorized(String),
    /// The request could not be served; the text says which step failed.
    UnexpectedError(String),
}

/// Mathematical value of [`ApiError`].
pub enum ApiErrorView {
    Unauthorized(Seq<char>),
    UnexpectedError(Seq<char>),
}

impl View for ApiError {
    type V = ApiErrorView;

    open spec fn view(&self) -> ApiErrorView {
        match *self {
            ApiError::Unauthorized(text) => ApiErrorView::Unauthorized(text@),
            ApiError::UnexpectedError(text) => ApiErrorView::UnexpectedError(text@),
        }
    }
}

impl ApiError {
    /// The rejection of a caller without a valid session.
    pub fn unauthorized(reason: &str) -> (e: ApiError)
        ensures
            e@ == ApiErrorView::Unauthorized(reason@),
    {
        ApiError::Unauthorized(reason.to_owned())
    }

    /// The report of a step that failed.
    pub fn unexpected(context: &str) -> (e: ApiError)
        ensures
            e@ == ApiErrorView::UnexpectedError(context@),
    {
        ApiError::UnexpectedError(context.to_owned())
    }

    /// The text that the error carries.
    pub fn message(&self) -> (text: String)
        ensures
            text@ == match self@ {
                ApiErrorView::Unauthorized(t) => t,
                ApiErrorView::UnexpectedError(t) => t,
            },
    {
        match self {
            ApiError::Unauthorized(text) => text.clone(),
            ApiError::UnexpectedError(text) => text.clone(),
        }
    }
}

/// The value of an optional text.
pub open spec fn text_option_view(text: Option<String>) -> Option<Seq<char>> {
    match text {
        Some(t) => Some(t@),
        None => None,
    }
}

/// The value of a text or an error.
pub open spec fn text_result_view(r: Result<String, ApiError>) -> Result<Seq<char>, ApiErrorView> {
    match r {
        Ok(t) => Ok(t@),
        Err(e) => Err(e@),
    }
}

/// The value of a plain success or an error.
pub open spec fn unit_result_view(r: Result<(), ApiError>) -> Result<(), ApiErrorView> {
    match r {
        Ok(()) => Ok(()),
        Err(e) => Err(e@),
    }
}

/// Reports a failed store operation as the step that failed.
pub open spec fn with_context_spec<T>(outcome: Result<T, StorageError>, context: Seq<char>) -> Result<
    T,
    ApiErrorView,
> {
    match outcome {
        Ok(value) => Ok(value),
        Err(_) => Err(ApiErrorView::UnexpectedError(context)),
    }
}

} // verus!
