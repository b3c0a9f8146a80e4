//! Bodies that a request can carry.
use vstd::prelude::*;

verus! {

/// Types of payload that can be sent.
#[derive(Debug)]
pub enum Payload<B> {
    /// No body at all: neither a content type nor a body reaches the wire.
    Empty,
    Text(B),
    Json(B),
    XTar(B),
    Tar(B),
}

impl<B> Payload<B> {
    /// The content type that the payload announces: none for no payload and for text.
    pub open spec fn content_type(&self) -> Option<Seq<char>> {
        match self {
            Payload::Empty => None,
            Payload::Text(_) => None,
            Payload::Json(_) => Some("application/json"@),
            Payload::XTar(_) => Some("application/x-tar"@),
            Payload::Tar(_) => Some("application/tar"@),
        }
    }

    /// The body the payload carries, if any.
    pub open spec fn body(self) -> Option<B> {
        match self {
            Payload::Empty => None,
            Payload::Text(b) => Some(b),
            Payload::Json(b) => Some(b),
            Payload::XTar(b) => Some(b),
            Payload::Tar(b) => Some(b),
        }
    }

    /// Creates an empty payload.
    pub fn empty() -> (r: Self)
        ensures
            r is Empty,
    {
        Payload::Empty
    }

    /// Extracts the inner body if there is one.
    pub fn into_inner(self) -> (r: Option<B>)
        ensures
            r == self.body(),
    {
        match self {
            Payload::Empty => None,
            Payload::Text(b) => Some(b),
            Payload::Json(b) => Some(b),
            Payload::XTar(b) => Some(b),
            Payload::Tar(b) => Some(b),
        }
    }

    /// The mime type of this payload.
    pub fn mime_type(&self) -> (r: Option<&'static str>)
        ensures
            match r {
                Some(m) => self.content_type() == Some(m@),
                None => self.content_type() is None,
            },
    {
        match self {
            Payload::Empty => None,
            Payload::Text(_) => None,
            Payload::Json(_) => Some("application/json"),
            Payload::XTar(_) => Some("application/x-tar"),
            Payload::Tar(_) => Some("application/tar"),
        }
    }

    /// Checks if there is no payload.
    pub fn is_none(&self) -> (r: bool)
        ensures
            r == (self is Empty),
    {
        match self {
            Payload::Empty => true,
            _ => false,
        }
    }
}

} // verus!
