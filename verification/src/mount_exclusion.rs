//! Mount-exclusion lists: ordered sets of (path, flags) entries keyed by
//! path.  The same store models both the persisted auto-apply list read at
//! boot and the live kernel-resident umount list; adding an existing path
//! replaces its flags in place, so insertion order — which is the order a
//! `list` reports — is preserved.

use vstd::prelude::*;
use crate::assoc::{
    assoc_map, distinct_keys, key_index, lemma_assoc_map_push, lemma_assoc_map_remove,
    lemma_assoc_map_update, lemma_key_index, lemma_key_index_absent, lemma_key_index_is,
    lemma_assoc_map_domain, lemma_upsert_found, remove_key, upsert,
};

verus! {

/// One exclusion entry: a mount-point path and the umount flag bits handed
/// through, unvalidated, to the kernel-resident mechanism.
pub struct MountExclusionEntry {
    pub path: String,
    pub flags: u32,
}

impl View for MountExclusionEntry {
    type V = (Seq<char>, u32);

    open spec fn view(&self) -> (Seq<char>, u32) {
        (self.path@, self.flags)
    }
}

/// The list after `add`: flags replaced in place when the path is present,
/// a new entry appended otherwise.
pub open spec fn mounts_after_add(
    s: Seq<(Seq<char>, u32)>,
    p: Seq<char>,
    f: u32,
) -> Seq<(Seq<char>, u32)> {
    upsert(s, p, f)
}

/// The list after `del`: the entry removed when present, the list unchanged
/// otherwise (deleting an absent path is a success, not an error).
pub open spec fn mounts_after_del(s: Seq<(Seq<char>, u32)>, p: Seq<char>) -> Seq<(Seq<char>, u32)> {
    remove_key(s, p)
}

pub struct MountExclusionStore {
    entries: Vec<MountExclusionEntry>,
}

impl View for MountExclusionStore {
    type V = Seq<(Seq<char>, u32)>;

    closed spec fn view(&self) -> Seq<(Seq<char>, u32)> {
        Seq::new(self.entries@.len(), |i: int| self.entries@[i]@)
    }
}

impl MountExclusionStore {
    /// Paths are pairwise distinct: one entry per mount point.
    pub open spec fn wf(&self) -> bool {
        distinct_keys(self@)
    }

    pub fn new() -> (r: MountExclusionStore)
        ensures
            r@ == Seq::<(Seq<char>, u32)>::empty(),
            r.wf(),
    {
        let r = MountExclusionStore { entries: Vec::new() };
        proof {
            assert(r@ =~= Seq::<(Seq<char>, u32)>::empty());
        }
        r
    }

    /// Position of `path` in the list, or `None` when absent.
    fn find(&self, path: &String) -> (r: Option<usize>)
        ensures
            r matches Some(i) ==> key_index(self@, path@) == i,
            r is None ==> key_index(self@, path@) == -1,
    {
        let n = self.entries.len();
        let mut i: usize = 0;
        while i < n
            invariant
                n == self.entries.len(),
                0 <= i <= n,
                forall|j: int| 0 <= j < i ==> self@[j].0 != path@,
            decreases n - i,
        {
            if self.entries[i].path.eq(path) {
                proof {
                    lemma_key_index_is(self@, path@, i as int);
                }
                return Some(i);
            }
            i += 1;
        }
        proof {
            lemma_key_index_absent(self@, path@);
        }
        None
    }

    /// Add an entry, replacing the flags of an existing entry for the same
    /// path rather than duplicating it.
    pub fn add(&mut self, path: String, flags: u32)
        requires
            old(self).wf(),
        ensures
            final(self).wf(),
            final(self)@ == mounts_after_add(old(self)@, path@, flags),
            assoc_map(final(self)@) == assoc_map(old(self)@).insert(path@, flags),
    {
        let ghost s0 = self@;
        match self.find(&path) {
            Some(i) => {
                proof {
                    lemma_key_index(s0, path@);
                    lemma_assoc_map_update(s0, i as int, flags);
                }
                self.entries.remove(i);
                self.entries.insert(i, MountExclusionEntry { path, flags });
                proof {
                    assert(self@ =~= s0.update(i as int, (path@, flags)));
                }
            },
            None => {
                proof {
                    lemma_assoc_map_push(s0, path@, flags);
                }
                self.entries.push(MountExclusionEntry { path, flags });
                proof {
                    assert(self@ =~= s0.push((path@, flags)));
                }
            },
        }
    }

    /// Delete the entry for `path`; absence is not an error and leaves the
    /// list unchanged.
    pub fn del(&mut self, path: &String)
        requires
            old(self).wf(),
        ensures
            final(self).wf(),
            final(self)@ == mounts_after_del(old(self)@, path@),
            assoc_map(final(self)@) == assoc_map(old(self)@).remove(path@),
    {
        let ghost s0 = self@;
        match self.find(path) {
            Some(i) => {
                proof {
                    lemma_key_index(s0, path@);
                    lemma_assoc_map_remove(s0, i as int);
                }
                self.entries.remove(i);
                proof {
                    assert(self@ =~= s0.remove(i as int));
                }
            },
            None => {
                proof {
                    lemma_key_index(s0, path@);
                    lemma_assoc_map_domain(s0, path@);
                    assert(assoc_map(s0).remove(path@) =~= assoc_map(s0));
                }
            },
        }
    }

    /// Remove every entry.
    pub fn wipe(&mut self)
        ensures
            final(self).wf(),
            final(self)@ == Seq::<(Seq<char>, u32)>::empty(),
    {
        self.entries.clear();
        proof {
            assert(self@ =~= Seq::<(Seq<char>, u32)>::empty());
        }
    }

    /// The entries, in insertion order.
    pub fn list(&self) -> (r: Vec<MountExclusionEntry>)
        ensures
            r@.len() == self@.len(),
            forall|i: int| 0 <= i < r@.len() ==> r@[i]@ == self@[i],
    {
        let n = self.entries.len();
        let mut r: Vec<MountExclusionEntry> = Vec::new();
        let mut i: usize = 0;
        while i < n
            invariant
                n == self.entries.len(),
                0 <= i <= n,
                r@.len() == i,
                forall|j: int| 0 <= j < i ==> r@[j]@ == self@[j],
            decreases n - i,
        {
            r.push(MountExclusionEntry {
                path: self.entries[i].path.clone(),
                flags: self.entries[i].flags,
            });
            i += 1;
        }
        r
    }

    /// The entries rendered as a compact JSON array of [path, flags] pairs,
    /// the machine-readable form of a live kernel umount-list query.
    pub fn list_json(&self) -> (r: String)
        ensures
            r@ == json_mount_list(self@),
    {
        let n = self.entries.len();
        let mut pairs: Vec<(String, u32)> = Vec::new();
        let mut i: usize = 0;
        while i < n
            invariant
                n == self.entries.len(),
                0 <= i <= n,
                pairs@.len() == i,
                forall|j: int| 0 <= j < i ==> (pairs@[j].0@, pairs@[j].1) == self@[j],
            decreases n - i,
        {
            pairs.push((self.entries[i].path.clone(), self.entries[i].flags));
            i += 1;
        }
        let r = mounts_to_json(&pairs);
        proof {
            assert(Seq::new(pairs@.len(), |j: int| (pairs@[j].0@, pairs@[j].1)) =~= self@);
        }
        r
    }
}

/// The JSON text serde produces for a list of (path, flags) pairs; a function
/// of the pairs alone.
pub uninterp spec fn json_mount_list(entries: Seq<(Seq<char>, u32)>) -> Seq<char>;

/// Relies on serde_json::to_string: serializing a vector of (string, integer)
/// pairs yields the compact JSON array of two-element arrays determined by
/// the pairs alone; its documentation says it can fail only for a fallible
/// `Serialize` or a map with non-string keys, neither of which this type has.
#[verifier::external_body]
fn mounts_to_json(entries: &Vec<(String, u32)>) -> (r: String)
    ensures
        r@ == json_mount_list(Seq::new(entries@.len(), |i: int| (entries@[i].0@, entries@[i].1))),
{
    match serde_json::to_string(entries) {
        Result::Ok(s) => s,
        Result::Err(_) => String::new(),
    }
}

/// After `add`, the path stands in the list exactly once, at `key_index`,
/// with the flags just given.
pub proof fn lemma_add_found(s: Seq<(Seq<char>, u32)>, p: Seq<char>, f: u32)
    requires
        distinct_keys(s),
    ensures
        ({
            let t = mounts_after_add(s, p, f);
            &&& distinct_keys(t)
            &&& 0 <= key_index(t, p) < t.len()
            &&& t[key_index(t, p)] == (p, f)
            &&& forall|j: int|
                0 <= j < t.len() && j != key_index(t, p) ==> t[j].0 != p
        }),
{
    lemma_upsert_found(s, p, f);
}

/// Law: adding the same path twice leaves exactly one entry for it, bearing
/// the flags of the second add.
pub proof fn lemma_add_add_replaces(s: Seq<(Seq<char>, u32)>, p: Seq<char>, f1: u32, f2: u32)
    requires
        distinct_keys(s),
    ensures
        ({
            let t = mounts_after_add(mounts_after_add(s, p, f1), p, f2);
            &&& distinct_keys(t)
            &&& 0 <= key_index(t, p) < t.len()
            &&& t[key_index(t, p)] == (p, f2)
            &&& forall|j: int|
                0 <= j < t.len() && j != key_index(t, p) ==> t[j].0 != p
        }),
{
    lemma_add_found(s, p, f1);
    lemma_add_found(mounts_after_add(s, p, f1), p, f2);
}

/// Law: deleting a path that is not in the list changes nothing.
pub proof fn lemma_del_absent(s: Seq<(Seq<char>, u32)>, p: Seq<char>)
    requires
        key_index(s, p) == -1,
    ensures
        mounts_after_del(s, p) == s,
{
}

} // verus!
