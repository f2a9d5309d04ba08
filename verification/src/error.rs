//! The library's error type.
use vstd::prelude::*;

verus! {

/// What went wrong, with a message. `S` is `String` in executable code and
/// `Seq<char>` in contracts.
#[derive(Debug)]
pub enum ErrorOf<S> {
    Index { message: S },
    Internal { message: S },
    InvalidInput { message: S },
    NotSupported { message: S },
    Arrow { message: S },
    Execution { message: S },
    IO { message: S },
}

pub type Error = ErrorOf<String>;

pub type ErrorView = ErrorOf<Seq<char>>;

impl View for ErrorOf<String> {
    type V = ErrorOf<Seq<char>>;

    open spec fn view(&self) -> ErrorOf<Seq<char>> {
        match self {
            ErrorOf::Index { message } => ErrorOf::Index { message: message@ },
            ErrorOf::Internal { message } => ErrorOf::Internal { message: message@ },
            ErrorOf::InvalidInput { message } => ErrorOf::InvalidInput { message: message@ },
            ErrorOf::NotSupported { message } => ErrorOf::NotSupported { message: message@ },
            ErrorOf::Arrow { message } => ErrorOf::Arrow { message: message@ },
            ErrorOf::Execution { message } => ErrorOf::Execution { message: message@ },
            ErrorOf::IO { message } => ErrorOf::IO { message: message@ },
        }
    }
}

pub open spec fn index_error(message: Seq<char>) -> ErrorView {
    ErrorOf::Index { message }
}

pub open spec fn internal_error(message: Seq<char>) -> ErrorView {
    ErrorOf::Internal { message }
}

pub open spec fn invalid_input(message: Seq<char>) -> ErrorView {
    ErrorOf::InvalidInput { message }
}

pub open spec fn not_supported(message: Seq<char>) -> ErrorView {
    ErrorOf::NotSupported { message }
}

/// Arrow's complaint about an argument.
pub open spec fn invalid_argument(text: Seq<char>) -> ErrorView {
    ErrorOf::Arrow { message: "Invalid argument error: "@ + text }
}

/// `r` failed with the error `e`.
pub open spec fn fails_with<T>(r: Result<T, Error>, e: ErrorView) -> bool {
    r matches Err(x) && x@ == e
}

impl ErrorOf<String> {
    /// The text of the error.
    pub fn message(&self) -> (r: &String)
        ensures
            match self@ {
                ErrorOf::Index { message } => r@ == message,
                ErrorOf::Internal { message } => r@ == message,
                ErrorOf::InvalidInput { message } => r@ == message,
                ErrorOf::NotSupported { message } => r@ == message,
                ErrorOf::Arrow { message } => r@ == message,
                ErrorOf::Execution { message } => r@ == message,
                ErrorOf::IO { message } => r@ == message,
            },
    {
        match self {
            ErrorOf::Index { message } => message,
            ErrorOf::Internal { message } => message,
            ErrorOf::InvalidInput { message } => message,
            ErrorOf::NotSupported { message } => message,
            ErrorOf::Arrow { message } => message,
            ErrorOf::Execution { message } => message,
            ErrorOf::IO { message } => message,
        }
    }
}

/// An error in a contract is of the kind of the error itself and has its message.
pub proof fn error_shows_itself(e: Error)
    ensures
        match (e, e@) {
            (ErrorOf::Index { message: a }, ErrorOf::Index { message: b }) => a@ == b,
            (ErrorOf::Internal { message: a }, ErrorOf::Internal { message: b }) => a@ == b,
            (ErrorOf::InvalidInput { message: a }, ErrorOf::InvalidInput { message: b }) => a@ == b,
            (ErrorOf::NotSupported { message: a }, ErrorOf::NotSupported { message: b }) => a@ == b,
            (ErrorOf::Arrow { message: a }, ErrorOf::Arrow { message: b }) => a@ == b,
            (ErrorOf::Execution { message: a }, ErrorOf::Execution { message: b }) => a@ == b,
            (ErrorOf::IO { message: a }, ErrorOf::IO { message: b }) => a@ == b,
            _ => false,
        },
{
}

/// The errors that contracts name are of their kind, with the message given, and
/// a failure is with exactly that error.
pub proof fn errors_are_of_their_kind<T>(text: Seq<char>, r: Result<T, Error>, e: ErrorView)
    ensures
        match index_error(text) {
            ErrorOf::Index { message } => message == text,
            _ => false,
        },
        match internal_error(text) {
            ErrorOf::Internal { message } => message == text,
            _ => false,
        },
        match invalid_input(text) {
            ErrorOf::InvalidInput { message } => message == text,
            _ => false,
        },
        match not_supported(text) {
            ErrorOf::NotSupported { message } => message == text,
            _ => false,
        },
        match invalid_argument(text) {
            ErrorOf::Arrow { message } => message == "Invalid argument error: "@ + text,
            _ => false,
        },
        fails_with(r, e) <==> match r {
            Err(x) => x@ == e,
            Ok(_) => false,
        },
{
}

} // verus!
