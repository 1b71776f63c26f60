//! Classified errors with stable exit codes.

use vstd::prelude::*;

verus! {

/// The class of a failure; each class has its own process exit code.
#[derive(Clone, Copy, Debug, PartialEq, Eq, Structural)]
pub enum ErrorCode {
    Error,
    Network,
    AuthRequired,
    NotFound,
    RateLimited,
    InvalidInput,
    NoAccount,
}

/// The exit code documented for each class of failure.
pub open spec fn spec_exit_code(code: ErrorCode) -> i32 {
    match code {
        ErrorCode::Error => 1,
        ErrorCode::Network => 2,
        ErrorCode::AuthRequired => 3,
        ErrorCode::NotFound => 4,
        ErrorCode::RateLimited => 5,
        ErrorCode::InvalidInput => 6,
        ErrorCode::NoAccount => 7,
    }
}

/// The symbol under which each class of failure is reported.
pub open spec fn spec_code_name(code: ErrorCode) -> Seq<char> {
    match code {
        ErrorCode::Error => "error"@,
        ErrorCode::Network => "network"@,
        ErrorCode::AuthRequired => "auth_required"@,
        ErrorCode::NotFound => "not_found"@,
        ErrorCode::RateLimited => "rate_limited"@,
        ErrorCode::InvalidInput => "invalid_input"@,
        ErrorCode::NoAccount => "no_account"@,
    }
}

impl ErrorCode {
    /// The process exit code for this class.
    pub fn exit_code(&self) -> (r: i32)
        ensures
            r == spec_exit_code(*self),
    {
        match self {
            ErrorCode::Error => 1,
            ErrorCode::Network => 2,
            ErrorCode::AuthRequired => 3,
            ErrorCode::NotFound => 4,
            ErrorCode::RateLimited => 5,
            ErrorCode::InvalidInput => 6,
            ErrorCode::NoAccount => 7,
        }
    }

    /// The symbol reported in the error envelope.
    pub fn name(&self) -> (r: &'static str)
        ensures
            r@ == spec_code_name(*self),
    {
        match self {
            ErrorCode::Error => "error",
            ErrorCode::Network => "network",
            ErrorCode::AuthRequired => "auth_required",
            ErrorCode::NotFound => "not_found",
            ErrorCode::RateLimited => "rate_limited",
            ErrorCode::InvalidInput => "invalid_input",
            ErrorCode::NoAccount => "no_account",
        }
    }
}

/// Distinct classes of failure exit with distinct codes, all between 1 and 7;
/// success (0) is never one of them.
pub proof fn exit_codes_are_distinct(a: ErrorCode, b: ErrorCode)
    ensures
        1 <= spec_exit_code(a) <= 7,
        a != b ==> spec_exit_code(a) != spec_exit_code(b),
{
}

/// A failure: its class, a message, and optionally a detail and a remediation.
#[derive(Debug)]
pub struct Error {
    pub code: ErrorCode,
    pub message: String,
    pub detail: Option<String>,
    pub fix: Option<String>,
}

/// The model of an [`Error`]: its class and its texts.
pub struct Failure {
    pub code: ErrorCode,
    pub message: Seq<char>,
    pub detail: Option<Seq<char>>,
    pub fix: Option<Seq<char>>,
}

pub open spec fn opt_view(o: Option<String>) -> Option<Seq<char>> {
    match o {
        Some(s) => Some(s@),
        None => None,
    }
}

/// A failure with a message and nothing more.
pub open spec fn failure(code: ErrorCode, message: Seq<char>) -> Failure {
    Failure { code, message, detail: None, fix: None }
}

impl View for Error {
    type V = Failure;

    open spec fn view(&self) -> Failure {
        Failure {
            code: self.code,
            message: self.message@,
            detail: opt_view(self.detail),
            fix: opt_view(self.fix),
        }
    }
}

impl Error {
    pub fn new(code: ErrorCode, message: String) -> (e: Error)
        ensures
            e.code == code,
            e.message == message,
            e.detail.is_none(),
            e.fix.is_none(),
    {
        Error { code, message, detail: None, fix: None }
    }

    pub fn auth(message: String) -> (e: Error)
        ensures
            e == Error::new_spec(ErrorCode::AuthRequired, message),
    {
        Error::new(ErrorCode::AuthRequired, message)
    }

    pub fn not_found(message: String) -> (e: Error)
        ensures
            e == Error::new_spec(ErrorCode::NotFound, message),
    {
        Error::new(ErrorCode::NotFound, message)
    }

    pub fn rate_limited(message: String) -> (e: Error)
        ensures
            e == Error::new_spec(ErrorCode::RateLimited, message),
    {
        Error::new(ErrorCode::RateLimited, message)
    }

    pub fn invalid(message: String) -> (e: Error)
        ensures
            e == Error::new_spec(ErrorCode::InvalidInput, message),
    {
        Error::new(ErrorCode::InvalidInput, message)
    }

    pub fn other(message: String) -> (e: Error)
        ensures
            e == Error::new_spec(ErrorCode::Error, message),
    {
        Error::new(ErrorCode::Error, message)
    }

    /// The error of a class with a message and nothing more.
    pub open spec fn new_spec(code: ErrorCode, message: String) -> Error {
        Error { code, message, detail: None, fix: None }
    }

    /// Attaches a detail, replacing any earlier one.
    pub fn detail(self, detail: String) -> (e: Error)
        ensures
            e == (Error { detail: Some(detail), ..self }),
    {
        Error { detail: Some(detail), ..self }
    }

    /// Attaches a remediation, replacing any earlier one.
    pub fn fix(self, fix: String) -> (e: Error)
        ensures
            e == (Error { fix: Some(fix), ..self }),
    {
        Error { fix: Some(fix), ..self }
    }
}

} // verus!
