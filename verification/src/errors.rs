//! The failure taxonomy: every operation of the library reports one of these,
//! so callers can tell "not authenticated" from "the service rejected this
//! request" from "the network is unreachable".

use vstd::prelude::*;

verus! {

/// The failure shape the service embeds in a response body when it rejects
/// a request.
#[derive(Debug, Clone, PartialEq, Eq)]
pub struct ErrResponse {
    pub errmsg: String,
    pub errno: i32,
    pub errtype: String,
    pub isblock: bool,
}

/// The mathematical shape of the failure payload.
#[verifier::ext_equal]
pub ghost struct ErrModel {
    pub errmsg: Seq<char>,
    pub errno: i32,
    pub errtype: Seq<char>,
    pub isblock: bool,
}

impl View for ErrResponse {
    type V = ErrModel;

    open spec fn view(&self) -> ErrModel {
        ErrModel {
            errmsg: self.errmsg@,
            errno: self.errno,
            errtype: self.errtype@,
            isblock: self.isblock,
        }
    }
}

#[derive(Debug, Clone, PartialEq, Eq)]
pub enum Error {
    /// A transport or connection failure, after any timeout retries were
    /// exhausted; the payload describes the failure.
    NetworkError(String),
    /// A response arrived with a status outside the 2xx range.
    HttpStatusError(u16),
    /// A response body matched neither the expected success shape nor the
    /// service's failure shape.
    DeserializationError,
    /// A value could not be converted: a structurally unparseable cookie
    /// entry, or a malformed persisted session.
    DataConversionError(String),
    /// The service explicitly rejected the request.
    ApiError(ErrResponse),
    /// An operation that needs a session, or a web-host call before the web
    /// profile was installed, was attempted while not logged in.
    NotLoggedIn,
    /// Reading or writing the persisted session failed; the payload describes
    /// the failure.
    IoError(String),
}

impl Error {
    /// Whether this failure means the caller is not authenticated.
    pub fn is_not_logged_in(&self) -> (r: bool)
        ensures
            r == (*self is NotLoggedIn),
    {
        match self {
            Error::NotLoggedIn => true,
            _ => false,
        }
    }
}

} // verus!
