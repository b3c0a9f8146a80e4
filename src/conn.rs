//! Connection related items: addressing, request assembly, response classification and
//! the decoders of streamed response bodies.
use vstd::prelude::*;

pub mod compat;
pub mod headers;
pub mod payload;
pub mod transport;
pub mod tty;

verus! {

/// Name of the header that carries registry credentials.
pub const AUTH_HEADER: &'static str = "X-Registry-Auth";

#[verifier::external_type_specification]
#[verifier::external_body]
pub struct ExInvalidUri(http::uri::InvalidUri);

#[verifier::external_type_specification]
#[verifier::external_body]
pub struct ExFromUtf8Error(std::string::FromUtf8Error);

/// The errors that the connection layer itself decides on.
#[derive(Debug)]
pub enum Error {
    /// An upgrade was asked for and the daemon answered with another status than 101.
    ConnectionNotUpgraded,
    /// The daemon answered with a status that is not a success.
    Fault { code: u16, message: String },
    /// The endpoint does not make a valid URI.
    InvalidUri(http::uri::InvalidUri),
    /// A body that had to be text is not valid UTF-8.
    Encoding(std::string::FromUtf8Error),
    /// A multiplexed stdio frame names a stream other than stdin, stdout or stderr.
    UnknownStreamTag(u8),
    /// The multiplexed stdio stream ended inside a frame.
    TruncatedFrame,
}

/// Common result type of the connection layer.
pub type Result<T> = std::result::Result<T, Error>;

} // verus!
