//! An image payload, carried as an opaque base64 string.

use vstd::prelude::*;

verus! {

/// An image attached to a request, already encoded as base64 text.
///
/// This layer never decodes the payload; it only carries it.
#[derive(Debug, PartialEq, Eq)]
pub struct Image(String);

impl View for Image {
    type V = Seq<char>;

    closed spec fn view(&self) -> Seq<char> {
        self.0@
    }
}

impl Image {
    /// Wraps already-encoded base64 text.
    pub fn from_base64(base64: String) -> (r: Self)
        ensures
            r@ == base64@,
    {
        Image(base64)
    }

    /// The base64 text of the payload.
    pub fn to_base64(&self) -> (r: &str)
        ensures
            r@ == self@,
    {
        self.0.as_str()
    }
}

} // verus!
