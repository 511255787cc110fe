//! The HTTP protocol version of a message.
use vstd::prelude::*;

verus! {

/// A protocol version. `Http11` is the default.
#[derive(Clone, Copy, PartialEq, Eq, Structural, Debug)]
pub enum Version {
    Http09,
    Http10,
    Http11,
    Http2,
    Http3,
}

impl Default for Version {
    fn default() -> (r: Version)
        ensures
            r == Version::Http11,
    {
        Version::Http11
    }
}

} // verus!
