//! The content hash of a snapshot, in the form in which it stands in an archive's name.

use vstd::prelude::*;
use vstd::std_specs::cmp::PartialEqSpecImpl;

use crate::text::{all_alnum, is_all_alnum};

verus! {

/// Whether `token` can stand for a hash: it is not empty and holds ASCII letters and
/// digits only.
pub open spec fn is_hash_token(token: Seq<char>) -> bool {
    token.len() > 0 && all_alnum(token)
}

/// The content hash of a snapshot: a token of ASCII letters and digits.
#[derive(Debug)]
pub struct Hash {
    token: String,
}

impl View for Hash {
    type V = Seq<char>;

    closed spec fn view(&self) -> Seq<char> {
        self.token@
    }
}

impl Hash {
    /// A hash is a hash token.
    #[verifier::type_invariant]
    spec fn well_formed(self) -> bool {
        is_hash_token(self.token@)
    }

    /// Makes a hash of `token`, if `token` can stand for one.
    pub fn new(token: &str) -> (r: Option<Hash>)
        ensures
            is_hash_token(token@) <==> r is Some,
            r matches Some(h) ==> h@ == token@,
    {
        if token.is_empty() || !is_all_alnum(token) {
            None
        } else {
            Some(Hash { token: token.to_owned() })
        }
    }

    /// The token, as it stands in file names.
    pub fn as_str(&self) -> (r: &str)
        ensures
            r@ == self@,
            is_hash_token(r@),
    {
        proof {
            use_type_invariant(self);
        }
        self.token.as_str()
    }
}

impl Clone for Hash {
    fn clone(&self) -> (r: Hash)
        ensures
            r@ == self@,
    {
        proof {
            use_type_invariant(self);
        }
        Hash { token: self.token.clone() }
    }
}

impl PartialEq for Hash {
    fn eq(&self, other: &Hash) -> (r: bool) {
        self.token == other.token
    }
}

impl Eq for Hash {

}

impl PartialEqSpecImpl for Hash {
    open spec fn obeys_eq_spec() -> bool {
        true
    }

    open spec fn eq_spec(&self, other: &Hash) -> bool {
        self@ == other@
    }
}

} // verus!
