//! The byte-chunk type handed out by bodies: an owned, contiguous buffer.
use vstd::prelude::*;
use vstd::string::StrSliceExecFns;
use vstd::string::StringSliceAdditionalSpecFns;

verus! {

/// One chunk of body data.
#[derive(Debug)]
pub struct Bytes {
    data: Vec<u8>,
}

impl View for Bytes {
    type V = Seq<u8>;

    closed spec fn view(&self) -> Seq<u8> {
        self.data@
    }
}

impl Clone for Bytes {
    fn clone(&self) -> (r: Self)
        ensures
            r@ == self@,
    {
        let mut data: Vec<u8> = Vec::new();
        let n: usize = self.data.len();
        let mut i: usize = 0;
        while i < n
            invariant
                n == self.data@.len(),
                i <= n,
                data@ =~= self.data@.subrange(0, i as int),
            decreases n - i,
        {
            data.push(self.data[i]);
            proof {
                assert(self.data@.subrange(0, i + 1) =~= self.data@.subrange(0, i as int).push(
                    self.data@[i as int],
                ));
            }
            i = i + 1;
        }
        proof {
            assert(self.data@.subrange(0, n as int) =~= self.data@);
        }
        Bytes { data }
    }
}

impl Bytes {
    /// An empty chunk.
    pub fn new() -> (r: Bytes)
        ensures
            r@ == Seq::<u8>::empty(),
    {
        Bytes { data: Vec::new() }
    }

    /// A chunk owning the given buffer.
    pub fn from_vec(data: Vec<u8>) -> (r: Bytes)
        ensures
            r@ == data@,
    {
        Bytes { data }
    }

    /// A chunk holding the UTF-8 bytes of the given string.
    pub fn from_string(s: String) -> (r: Bytes)
        ensures
            r@ == vstd::utf8::encode_utf8(s@),
    {
        Bytes { data: s.as_str().as_bytes_vec() }
    }

    /// A chunk holding the UTF-8 bytes of the given string slice.
    pub fn from_str_slice(s: &str) -> (r: Bytes)
        ensures
            r@ == s.spec_bytes(),
    {
        Bytes { data: s.as_bytes_vec() }
    }

    /// A chunk holding a copy of the given byte slice.
    pub fn from_slice(s: &[u8]) -> (r: Bytes)
        ensures
            r@ == s@,
    {
        Bytes { data: vstd::slice::slice_to_vec(s) }
    }

    pub fn len(&self) -> (r: usize)
        ensures
            r == self@.len(),
    {
        self.data.len()
    }

    pub fn is_empty(&self) -> (r: bool)
        ensures
            r == (self@.len() == 0),
    {
        self.data.len() == 0
    }

    /// A reference to the underlying buffer.
    pub fn as_vec(&self) -> (r: &Vec<u8>)
        ensures
            r@ == self@,
    {
        &self.data
    }

    /// Give up the chunk, returning its buffer.
    pub fn into_vec(self) -> (r: Vec<u8>)
        ensures
            r@ == self@,
    {
        self.data
    }

    /// Append another chunk's bytes to this one.
    pub fn extend_from(&mut self, other: &Bytes)
        ensures
            final(self)@ == old(self)@ + other@,
    {
        let n: usize = other.data.len();
        let mut i: usize = 0;
        while i < n
            invariant
                n == other@.len(),
                i <= n,
                self@ == old(self)@ + other@.subrange(0, i as int),
            decreases n - i,
        {
            let b = other.data[i];
            self.data.push(b);
            proof {
                assert(old(self)@ + other@.subrange(0, i + 1) =~= (old(self)@ + other@.subrange(
                    0,
                    i as int,
                )).push(other@[i as int]));
            }
            i = i + 1;
        }
        proof {
            assert(other@.subrange(0, n as int) =~= other@);
        }
    }

    /// Leave an empty chunk behind, returning the current one.
    pub fn take(&mut self) -> (r: Bytes)
        ensures
            r@ == old(self)@,
            final(self)@ == Seq::<u8>::empty(),
    {
        let mut out = Bytes { data: Vec::new() };
        core::mem::swap(&mut out, self);
        out
    }
}

} // verus!
