//! The error values that flow through the pipeline: build-time rejects,
//! body failures, routing failures, and free-form messages.
use vstd::prelude::*;

verus! {

/// A value handed to a builder was malformed; surfaced when the message
/// is finished, never later.
#[derive(Clone, Copy, PartialEq, Eq, Structural, Debug)]
pub enum BuildError {
    InvalidMethod,
    InvalidUri,
    InvalidHeaderName,
    InvalidHeaderValue,
    InvalidStatus,
}

/// What a body reports when producing a chunk fails; opaque text once it
/// crosses the type-erasure boundary.
#[derive(Debug)]
pub struct BodyError {
    message: String,
}

impl View for BodyError {
    type V = Seq<char>;

    closed spec fn view(&self) -> Seq<char> {
        self.message@
    }
}

impl BodyError {
    pub fn new(message: String) -> (r: BodyError)
        ensures
            r@ == message@,
    {
        BodyError { message }
    }

    pub fn message(&self) -> (r: &str)
        ensures
            r@ == self@,
    {
        self.message.as_str()
    }
}

impl Clone for BodyError {
    fn clone(&self) -> (r: Self)
        ensures
            r@ == self@,
    {
        BodyError { message: self.message.clone() }
    }
}

/// The unified error of the pipeline. Routing errors carry the original
/// request so an outer handler can inspect it.
#[derive(Debug)]
pub enum Error {
    /// No route matched the request's path.
    NotFound(crate::router::NotFound),
    /// A route matched, but no handler is registered for the verb.
    MethodNotAllowed(crate::router::MethodNotAllowed),
    /// A body failed while producing a chunk.
    Body(BodyError),
    /// A builder was given a malformed value.
    Build(BuildError),
    /// Any other failure, as text.
    Message(String),
}

} // verus!
