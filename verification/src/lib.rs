//! Client library for a phone + SMS login protocol of a remote social-network
//! service: a request-signing algorithm, a cookie translator for the service's
//! non-standard cookie strings, a retrying dual-profile transport, the login
//! state machine, and a persistable session.

pub mod strutil;
pub mod sign;
pub mod errors;
pub mod models;
pub mod dates;
pub mod cookie;
pub mod session;
pub mod transport;
pub mod requests;
pub mod utils;
pub mod api;
pub mod mock;
