//! The sandbox: one base directory, and the test that keeps every served
//! file below it.

use crate::path::begins_at_root;
use crate::path::is_absolute;
use crate::path::is_within;
use crate::path::join;
use crate::path::joined;
use crate::path::lemma_joined_components;
use crate::path::starts_with;
use vstd::prelude::*;
use vstd::utf8::encode_utf8;

verus! {

/// The base directory: an absolute path, fixed once the server starts.
#[derive(Debug, PartialEq, Eq)]
pub struct BaseDir {
    path: Vec<u8>,
}

impl View for BaseDir {
    type V = Seq<u8>;

    closed spec fn view(&self) -> Seq<u8> {
        self.path@
    }
}

/// The path that is handed to the filesystem for a decoded request path:
/// the text, as bytes, below the base directory.
pub open spec fn candidate_of(base: Seq<u8>, text: Seq<char>) -> Seq<u8> {
    joined(base, encode_utf8(text))
}

impl BaseDir {
    #[verifier::type_invariant]
    spec fn rooted(self) -> bool {
        is_absolute(self.path@)
    }

    /// Takes a path as the base directory; `None` unless it is absolute.
    pub fn new(path: Vec<u8>) -> (out: Option<BaseDir>)
        ensures
            out is Some <==> is_absolute(path@),
            out is Some ==> out.unwrap()@ == path@,
    {
        if begins_at_root(path.as_slice()) {
            Some(BaseDir { path })
        } else {
            None
        }
    }

    /// The bytes of the base directory.
    pub fn as_bytes(&self) -> (out: &[u8])
        ensures
            out@ == self@,
            is_absolute(out@),
    {
        proof {
            use_type_invariant(self);
        }
        self.path.as_slice()
    }

    /// The candidate path for a decoded request path. It begins with the base
    /// directory whatever the text holds, and is meant for canonicalization
    /// only.
    pub fn candidate(&self, text: &str) -> (out: Vec<u8>)
        ensures
            out@ == candidate_of(self@, text@),
            self@.is_prefix_of(out@),
            is_within(self@, out@),
    {
        proof {
            use_type_invariant(self);
            lemma_joined_components(self.path@, encode_utf8(text@));
        }
        join(self.path.as_slice(), text.as_bytes())
    }

    /// Whether a canonical path lies at or below the base directory, component
    /// by component.
    pub fn admits(&self, resolved: &[u8]) -> (out: bool)
        ensures
            out == is_within(self@, resolved@),
    {
        starts_with(resolved, self.path.as_slice())
    }
}

} // verus!
