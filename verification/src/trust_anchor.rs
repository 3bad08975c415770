//! The trust anchor: the binding that names, by signature size and a
//! 64-byte signature hash, the one application authorized to grant root.
//! Either both fields are set (anchor active) or the anchor is cleared;
//! a hash of any other length is a validation error and leaves the
//! anchor untouched.

use vstd::prelude::*;

verus! {

/// The exact byte length a signature hash must have.
pub const HASH_LEN: usize = 64;

#[derive(Clone, Copy, PartialEq, Eq, Structural, Debug)]
pub enum AnchorError {
    /// The supplied hash was not exactly `HASH_LEN` bytes long.
    InvalidHashLength,
}

pub struct TrustAnchor {
    active: bool,
    size: u32,
    hash: Vec<u8>,
}

impl View for TrustAnchor {
    type V = Option<(u32, Seq<u8>)>;

    closed spec fn view(&self) -> Option<(u32, Seq<u8>)> {
        if self.active {
            Some((self.size, self.hash@))
        } else {
            None
        }
    }
}

/// The binding after a `set` request: installed when the hash is exactly
/// 64 bytes, otherwise the prior binding, unchanged.
pub open spec fn anchor_after_set(
    prior: Option<(u32, Seq<u8>)>,
    size: u32,
    hash: Seq<u8>,
) -> Option<(u32, Seq<u8>)> {
    if hash.len() == HASH_LEN {
        Some((size, hash))
    } else {
        prior
    }
}

impl TrustAnchor {
    /// An active anchor always holds a hash of exactly 64 bytes.
    pub closed spec fn wf(&self) -> bool {
        self.active ==> self.hash@.len() == HASH_LEN
    }

    /// A fresh anchor reports absent.
    pub fn new() -> (r: TrustAnchor)
        ensures
            r@ is None,
            r.wf(),
    {
        TrustAnchor { active: false, size: 0, hash: Vec::new() }
    }

    /// Read the current binding: the size and a copy of the hash bytes, or
    /// `None` when the anchor is cleared.
    pub fn get(&self) -> (r: Option<(u32, Vec<u8>)>)
        ensures
            r is Some <==> self@ is Some,
            r matches Some(p) ==> self@ == Some((p.0, p.1@)),
    {
        if self.active {
            Some((self.size, self.hash.clone()))
        } else {
            None
        }
    }

    /// Install a binding.  A hash of any length other than 64 bytes is
    /// rejected and the prior binding survives unchanged.
    pub fn set(&mut self, size: u32, hash: Vec<u8>) -> (r: Result<(), AnchorError>)
        requires
            old(self).wf(),
        ensures
            final(self).wf(),
            final(self)@ == anchor_after_set(old(self)@, size, hash@),
            r is Ok <==> hash@.len() == HASH_LEN,
            r matches Err(e) ==> e == AnchorError::InvalidHashLength,
    {
        if hash.len() != HASH_LEN {
            return Err(AnchorError::InvalidHashLength);
        }
        self.active = true;
        self.size = size;
        self.hash = hash;
        Ok(())
    }

    /// Remove the binding; a following `get` reports absent.
    pub fn clear(&mut self)
        ensures
            final(self).wf(),
            final(self)@ is None,
    {
        self.active = false;
        self.hash = Vec::new();
        self.size = 0;
    }
}

/// Law: installing a valid 64-byte hash makes the binding exactly that pair,
/// whatever was bound before; clearing makes it absent (absence is stated by
/// `clear`'s own contract).
pub proof fn lemma_anchor_set_round_trip(prior: Option<(u32, Seq<u8>)>, size: u32, hash: Seq<u8>)
    requires
        hash.len() == HASH_LEN,
    ensures
        anchor_after_set(prior, size, hash) == Some((size, hash)),
{
}

/// Law: a `set` with a hash that is not exactly 64 bytes leaves the binding
/// as it was before the call.
pub proof fn lemma_anchor_bad_hash_rejected(prior: Option<(u32, Seq<u8>)>, size: u32, hash: Seq<u8>)
    requires
        hash.len() != HASH_LEN,
    ensures
        anchor_after_set(prior, size, hash) == prior,
{
}

} // verus!
