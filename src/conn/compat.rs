//! The adaptor from a tokio stream to the byte-read/byte-write capability of the decoders.
use vstd::prelude::*;

verus! {

/// Wraps a tokio stream so that it can be read and written through `futures` I/O.
pub struct Compat<S> {
    tokio_multiplexer: S,
}

impl<S> Compat<S> {
    pub closed spec fn inner(&self) -> S {
        self.tokio_multiplexer
    }

    pub fn new(tokio_multiplexer: S) -> (r: Self)
        ensures
            r.inner() == tokio_multiplexer,
    {
        Compat { tokio_multiplexer }
    }

    /// The wrapped stream.
    pub fn get_ref(&self) -> (r: &S)
        ensures
            *r == self.inner(),
    {
        &self.tokio_multiplexer
    }

    /// Takes the wrapped stream back.
    pub fn into_inner(self) -> (r: S)
        ensures
            r == self.inner(),
    {
        self.tokio_multiplexer
    }
}

} // verus!
