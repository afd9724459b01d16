//! Where the bytes of an image are to be had from.

use std::convert::Infallible;
use vstd::prelude::*;
use vstd::string::StringSliceAdditionalSpecFns;

verus! {

/// Whether `text` starts with `prefix`.
pub open spec fn begins_with(text: Seq<u8>, prefix: Seq<u8>) -> bool {
    prefix.len() <= text.len() && text.take(prefix.len() as int) == prefix
}

/// Whether `text` names a place on the web: whether it starts with
/// `https://` or with `http://`.
pub open spec fn names_url(text: Seq<u8>) -> bool {
    begins_with(text, "https://".spec_bytes()) || begins_with(text, "http://".spec_bytes())
}

fn bytes_begin_with(text: &[u8], prefix: &[u8]) -> (out: bool)
    ensures
        out == begins_with(text@, prefix@),
{
    if prefix.len() > text.len() {
        return false;
    }
    let mut i: usize = 0;
    while i < prefix.len()
        invariant
            i <= prefix.len() <= text.len(),
            forall|j: int| 0 <= j < i ==> text@[j] == prefix@[j],
        decreases prefix.len() - i,
    {
        if text[i] != prefix[i] {
            assert(text@.take(prefix.len() as int)[i as int] != prefix@[i as int]);
            return false;
        }
        i += 1;
    }
    assert(text@.take(prefix.len() as int) =~= prefix@);
    true
}

/// The source of an image: a file, by its path, or a place on the web, by
/// its address.
#[derive(Debug, Eq)]
pub enum InputImage {
    File(String),
    Url(String),
}

impl InputImage {
    /// The path or the address, as it was given.
    pub open spec fn text(self) -> Seq<char> {
        match self {
            InputImage::File(path) => path@,
            InputImage::Url(address) => address@,
        }
    }
}

impl Clone for InputImage {
    fn clone(&self) -> (out: Self)
        ensures
            out == *self,
    {
        match self {
            InputImage::File(path) => InputImage::File(path.clone()),
            InputImage::Url(address) => InputImage::Url(address.clone()),
        }
    }
}

impl PartialEq for InputImage {
    fn eq(&self, other: &Self) -> (same: bool) {
        match self {
            InputImage::File(a) => match other {
                InputImage::File(b) => *a == *b,
                InputImage::Url(_) => false,
            },
            InputImage::Url(a) => match other {
                InputImage::File(_) => false,
                InputImage::Url(b) => *a == *b,
            },
        }
    }
}

impl vstd::std_specs::cmp::PartialEqSpecImpl for InputImage {
    open spec fn obeys_eq_spec() -> bool {
        true
    }

    /// Two sources are equal when they are of one kind and hold the same text.
    open spec fn eq_spec(&self, other: &Self) -> bool {
        (*self is Url <==> *other is Url) && self.text() == other.text()
    }
}

impl std::str::FromStr for InputImage {
    type Err = Infallible;

    /// Reads a source from text. Text that starts with `https://` or with
    /// `http://` is an address, and any other text is a path. No text is
    /// refused.
    fn from_str(s: &str) -> (out: Result<Self, Infallible>)
        ensures
            out matches Ok(image) && image.text() == s@ && (image is Url <==> names_url(
                s.spec_bytes(),
            )),
    {
        let bytes = s.as_bytes();
        if bytes_begin_with(bytes, "https://".as_bytes()) || bytes_begin_with(
            bytes,
            "http://".as_bytes(),
        ) {
            Ok(InputImage::Url(s.to_owned()))
        } else {
            Ok(InputImage::File(s.to_owned()))
        }
    }
}

} // verus!
