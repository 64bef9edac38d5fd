//! The errors that a key reports, and how a token's errors become them.
use crate::text::{contains_text, occurs};
use vstd::prelude::*;
use vstd::string::*;

verus! {

/// Why a key operation failed, with a message.
#[derive(Debug)]
pub enum BackendError {
    /// The token wants a PIN, or another one.
    AuthenticationFailed(String),
    /// The token, or the bridge, does not do this with this key.
    MechanismNotSupported(String),
    /// No such key.
    KeyNotFound(String),
    /// Anything else.
    Internal(String),
}

/// Which of the errors it is.
pub enum ErrorKind {
    AuthenticationFailed,
    MechanismNotSupported,
    KeyNotFound,
    Internal,
}

/// A [`BackendError`] as mathematical values.
#[verifier::ext_equal]
pub struct BackendErrorView {
    pub kind: ErrorKind,
    pub text: Seq<char>,
}

impl View for BackendError {
    type V = BackendErrorView;

    open spec fn view(&self) -> BackendErrorView {
        match self {
            BackendError::AuthenticationFailed(s) => BackendErrorView {
                kind: ErrorKind::AuthenticationFailed,
                text: s@,
            },
            BackendError::MechanismNotSupported(s) => BackendErrorView {
                kind: ErrorKind::MechanismNotSupported,
                text: s@,
            },
            BackendError::KeyNotFound(s) => BackendErrorView {
                kind: ErrorKind::KeyNotFound,
                text: s@,
            },
            BackendError::Internal(s) => BackendErrorView { kind: ErrorKind::Internal, text: s@ },
        }
    }
}

/// An internal error with message `text`.
pub open spec fn internal(text: Seq<char>) -> BackendErrorView {
    BackendErrorView { kind: ErrorKind::Internal, text }
}

/// A refused mechanism with message `text`.
pub open spec fn not_supported(text: Seq<char>) -> BackendErrorView {
    BackendErrorView { kind: ErrorKind::MechanismNotSupported, text }
}

/// The broad kind of a token error, told by the names in its description.
pub open spec fn kind_of(code: Seq<char>) -> ErrorKind {
    if occurs("PinIncorrect"@, code) || occurs("UserNotLoggedIn"@, code) {
        ErrorKind::AuthenticationFailed
    } else if occurs("MechanismInvalid"@, code) || occurs("KeyTypeInconsistent"@, code) {
        ErrorKind::MechanismNotSupported
    } else if occurs("ObjectHandleInvalid"@, code) || occurs("KeyHandleInvalid"@, code) {
        ErrorKind::KeyNotFound
    } else {
        ErrorKind::Internal
    }
}

/// The error that a token error becomes. Its description stays as the message.
pub open spec fn backend_error(code: Seq<char>) -> BackendErrorView {
    BackendErrorView { kind: kind_of(code), text: code }
}

/// Turns the description of a token error, such as `ErrorCode::PinIncorrect`,
/// into one of the broad kinds.
pub fn ck_error_to_backend(code: String) -> (e: BackendError)
    ensures
        e@ == backend_error(code@),
{
    let c: &str = code.as_str();
    if contains_text(c, "PinIncorrect") || contains_text(c, "UserNotLoggedIn") {
        BackendError::AuthenticationFailed(code)
    } else if contains_text(c, "MechanismInvalid") || contains_text(c, "KeyTypeInconsistent") {
        BackendError::MechanismNotSupported(code)
    } else if contains_text(c, "ObjectHandleInvalid") || contains_text(c, "KeyHandleInvalid") {
        BackendError::KeyNotFound(code)
    } else {
        BackendError::Internal(code)
    }
}

// ---------------------------------------------------------------------------
// Laws
// ---------------------------------------------------------------------------

/// A token error keeps its description, and the names in the description decide
/// its kind: those about PIN and login come first, then those about mechanism
/// and key type, then those about handles; without any of them it is internal.
pub proof fn law_names_decide_the_kind(code: Seq<char>)
    ensures
        backend_error(code).text == code,
        ({
            let pin = occurs("PinIncorrect"@, code) || occurs("UserNotLoggedIn"@, code);
            let mech = occurs("MechanismInvalid"@, code) || occurs("KeyTypeInconsistent"@, code);
            let handle = occurs("ObjectHandleInvalid"@, code) || occurs("KeyHandleInvalid"@, code);
            let kind = backend_error(code).kind;
            &&& kind == ErrorKind::AuthenticationFailed <==> pin
            &&& kind == ErrorKind::MechanismNotSupported <==> !pin && mech
            &&& kind == ErrorKind::KeyNotFound <==> !pin && !mech && handle
            &&& kind == ErrorKind::Internal <==> !pin && !mech && !handle
        }),
{
}

/// An error of the bridge's own is of the kind that it is made for and has the
/// message that it is made with; an error shows its kind and its whole message.
pub proof fn law_errors_show_their_message(text: Seq<char>, s: String)
    ensures
        internal(text).kind == ErrorKind::Internal && internal(text).text == text,
        not_supported(text).kind == ErrorKind::MechanismNotSupported && not_supported(text).text
            == text,
        BackendError::AuthenticationFailed(s)@.kind == ErrorKind::AuthenticationFailed
            && BackendError::AuthenticationFailed(s)@.text == s@,
        BackendError::MechanismNotSupported(s)@ == not_supported(s@),
        BackendError::KeyNotFound(s)@.kind == ErrorKind::KeyNotFound && BackendError::KeyNotFound(
            s,
        )@.text == s@,
        BackendError::Internal(s)@ == internal(s@),
{
}

} // verus!
