//! Request bodies.
use vstd::prelude::*;
use vstd::slice::slice_to_vec;
use vstd::string::*;
use vstd::utf8::encode_utf8;

verus! {

/// The body of a request: an immutable sequence of bytes.
#[derive(Debug)]
pub struct Body {
    inner: Vec<u8>,
}

impl View for Body {
    type V = Seq<u8>;

    closed spec fn view(&self) -> Seq<u8> {
        self.inner@
    }
}

impl Clone for Body {
    fn clone(&self) -> (r: Self)
        ensures
            r@ == self@,
    {
        Body { inner: self.inner.clone() }
    }
}

impl Body {
    /// A body that holds these bytes.
    pub fn from_vec(bytes: Vec<u8>) -> (r: Body)
        ensures
            r@ == bytes@,
    {
        Body { inner: bytes }
    }

    /// A body that holds a copy of these bytes.
    pub fn from_slice(bytes: &[u8]) -> (r: Body)
        ensures
            r@ == bytes@,
    {
        Body { inner: slice_to_vec(bytes) }
    }

    /// A body that holds the UTF-8 encoding of a text.
    pub fn from_str(s: &str) -> (r: Body)
        ensures
            r@ == encode_utf8(s@),
    {
        Body { inner: s.as_bytes_vec() }
    }

    /// The bytes of the body, giving up the body.
    pub fn into_vec(self) -> (r: Vec<u8>)
        ensures
            r@ == self@,
    {
        self.inner
    }

    /// The bytes of the body.
    pub fn bytes(&self) -> (r: &[u8])
        ensures
            r@ == self@,
    {
        self.inner.as_slice()
    }
}

} // verus!
