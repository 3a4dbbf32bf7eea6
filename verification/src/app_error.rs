//! The application's error type and the HTTP answers it turns into.

use vstd::prelude::*;
use vstd::string::{to_string_from_display_ensures, StringExecFns};

use crate::trace::{cut_trace, cut_trace_view};

verus! {

#[verifier::external_type_specification]
#[verifier::external_body]
pub struct ExAnyhowError(anyhow::Error);

#[verifier::external_type_specification]
#[verifier::external_body]
pub struct ExBacktrace(std::backtrace::Backtrace);

/// The backtrace an `anyhow::Error` holds: captured when the error was made,
/// if the process environment asked for one.
pub uninterp spec fn stored_backtrace(err: anyhow::Error) -> std::backtrace::Backtrace;

/// `anyhow::Error::backtrace`: the backtrace stored in the error. What it
/// holds depends on the environment at the error's creation, so nothing is
/// claimed of its contents.
#[verifier::external_body]
fn anyhow_backtrace(err: &anyhow::Error) -> (b: &std::backtrace::Backtrace)
    ensures
        *b == stored_backtrace(*err),
{
    err.backtrace()
}

/// Status code of a failed request.
pub open spec fn internal_server_error() -> u16 {
    500u16
}

/// Status code of a request refused because the server is overloaded.
pub open spec fn service_unavailable() -> u16 {
    503u16
}

/// The body sent with an internal server error.
pub open spec fn internal_error_body() -> Seq<char> {
    "Internal Server Error"@
}

/// A plain HTTP answer: a status code and a body.
pub struct ErrorResponse {
    pub status: u16,
    pub body: String,
}

/// An error raised while serving a request, kept as the text of its message
/// and of the backtrace captured with it.
pub struct AppError {
    pub message: String,
    pub backtrace: String,
}

/// The text an `AppError` is displayed as: the message, then the backtrace
/// cut down to the application's own frames.
pub open spec fn app_error_text(message: Seq<char>, backtrace: Seq<char>) -> Seq<char> {
    message + ". \n"@ + cut_trace_view(backtrace)
}

/// The displayed text of an error is its whole message, then `". \n"`,
/// then the cut backtrace: the message is never shortened or changed.
pub proof fn lemma_app_error_text_keeps_message(message: Seq<char>, backtrace: Seq<char>)
    ensures
        app_error_text(message, backtrace).take(message.len() as int) == message,
        app_error_text(message, backtrace).len() == message.len() + 3 + cut_trace_view(
            backtrace,
        ).len(),
        app_error_text(message, backtrace).subrange(message.len() as int, message.len() + 3int)
            == seq!['.', ' ', '\n'],
        app_error_text(message, backtrace).skip(message.len() + 3int) == cut_trace_view(backtrace),
{
    reveal_strlit(". \n");
    let t = app_error_text(message, backtrace);
    assert(t.take(message.len() as int) =~= message);
    assert(t.subrange(message.len() as int, message.len() + 3int) =~= seq!['.', ' ', '\n']);
    assert(t.skip(message.len() + 3int) =~= cut_trace_view(backtrace));
}

impl AppError {
    /// An error with the given message and backtrace text.
    pub fn new(message: String, backtrace: String) -> (e: AppError)
        ensures
            e.message@ == message@,
            e.backtrace@ == backtrace@,
    {
        AppError { message, backtrace }
    }

    /// Wraps an `anyhow::Error`, keeping its message (the error's `Display`
    /// text) and the text of the backtrace captured with it.
    pub fn from_anyhow(err: anyhow::Error) -> (e: AppError)
        ensures
            to_string_from_display_ensures::<anyhow::Error>(&err, e.message),
            to_string_from_display_ensures::<std::backtrace::Backtrace>(
                &stored_backtrace(err),
                e.backtrace,
            ),
    {
        let message = err.to_string();
        let backtrace = anyhow_backtrace(&err).to_string();
        AppError { message, backtrace }
    }

    /// The text the error is displayed and logged as.
    pub fn to_string(&self) -> (s: String)
        ensures
            s@ == app_error_text(self.message@, self.backtrace@),
            s@ == self.message@ + ". \n"@ + cut_trace_view(self.backtrace@),
            s@.take(self.message@.len() as int) == self.message@,
    {
        let mut s = self.message.clone();
        s.append(". \n");
        s.append(cut_trace(self.backtrace.as_str()));
        assert(s@.take(self.message@.len() as int) =~= self.message@);
        s
    }

    /// The answer sent for a request that failed with this error: an
    /// internal server error whose body tells nothing of the cause.
    pub fn into_response(&self) -> (r: ErrorResponse)
        ensures
            r.status == internal_server_error(),
            r.body@ == internal_error_body(),
    {
        ErrorResponse { status: 500, body: String::from_str("Internal Server Error") }
    }
}

/// The answer to a request that a middleware layer failed: a bare
/// "service unavailable" when the load-shedding layer refused it, else the
/// answer for an internal error.
pub fn handle_error(overloaded: bool) -> (r: ErrorResponse)
    ensures
        overloaded ==> r.status == service_unavailable() && r.body@.len() == 0,
        !overloaded ==> r.status == internal_server_error() && r.body@ == internal_error_body(),
{
    if overloaded {
        ErrorResponse { status: 503, body: String::new() }
    } else {
        ErrorResponse { status: 500, body: String::from_str("Internal Server Error") }
    }
}

} // verus!
