//! Per-module key/value configuration in two tiers.  The persistent tier
//! survives reboots; the ephemeral tier is cleared on reboot and shadows the
//! persistent tier whenever both define the same key, so a module can
//! trial-run a setting without committing it.  Keys must fit a safe
//! identifier grammar and values must be storable; both are validated before
//! any mutation.

use vstd::prelude::*;
use vstd::string::StrSliceExecFns;
use crate::assoc::{
    assoc_map, distinct_keys, key_index, lemma_assoc_map_at, lemma_assoc_map_concat,
    lemma_assoc_map_domain, lemma_key_index, lemma_key_index_absent, lemma_key_index_is,
    lemma_upsert_found, remove_key, upsert,
};

verus! {

/// Longest accepted configuration key, in characters.
pub const MAX_KEY_LEN: usize = 256;

/// Longest accepted configuration value, in characters.
pub const MAX_VALUE_LEN: usize = 65536;

#[derive(Clone, Copy, PartialEq, Eq, Structural, Debug)]
pub enum ConfigTier {
    Persistent,
    Ephemeral,
}

#[derive(Debug)]
pub enum ConfigError {
    /// The key does not fit the safe-identifier grammar.
    InvalidKey(String),
    /// The value holds characters the storage format cannot carry, or is
    /// over the maximum length.
    InvalidValue,
    /// No tier defines the key; distinct from an empty listing, which is a
    /// success.
    KeyNotFound(String),
}

/// A key character: ASCII alphanumeric, underscore, hyphen or dot — no path
/// separators, no control characters.
pub open spec fn key_char_ok(c: char) -> bool {
    (97 <= c as u32 && c as u32 <= 122)  // 'a'..='z'
    || (65 <= c as u32 && c as u32 <= 90)  // 'A'..='Z'
    || (48 <= c as u32 && c as u32 <= 57)  // '0'..='9'
    || c == '_' || c == '-' || c == '.'
}

/// A storable value character: anything that is not a control character,
/// plus tab, newline and carriage return (a value read from a bulk stream
/// keeps its embedded line breaks).
pub open spec fn value_char_ok(c: char) -> bool {
    c as u32 >= 32 || c == '\t' || c == '\n' || c == '\r'
}

pub open spec fn valid_key_seq(s: Seq<char>) -> bool {
    1 <= s.len() <= MAX_KEY_LEN && forall|i: int| 0 <= i < s.len() ==> key_char_ok(s[i])
}

pub open spec fn valid_value_seq(s: Seq<char>) -> bool {
    s.len() <= MAX_VALUE_LEN && forall|i: int| 0 <= i < s.len() ==> value_char_ok(s[i])
}

fn is_key_char(c: char) -> (r: bool)
    ensures
        r == key_char_ok(c),
{
    let u = c as u32;
    (97 <= u && u <= 122) || (65 <= u && u <= 90) || (48 <= u && u <= 57) || c == '_' || c == '-'
        || c == '.'
}

/// Whether `key` fits the safe-identifier grammar.
pub fn validate_key(key: &String) -> (r: bool)
    ensures
        r == valid_key_seq(key@),
{
    let n = key.as_str().unicode_len();
    if n == 0 || n > MAX_KEY_LEN {
        return false;
    }
    let mut i: usize = 0;
    while i < n
        invariant
            n == key@.len(),
            0 <= i <= n,
            forall|j: int| 0 <= j < i ==> key_char_ok(key@[j]),
        decreases n - i,
    {
        if !is_key_char(key.as_str().get_char(i)) {
            return false;
        }
        i += 1;
    }
    true
}

/// Whether `value` can be stored without corrupting the record format.
pub fn validate_value(value: &String) -> (r: bool)
    ensures
        r == valid_value_seq(value@),
{
    let n = value.as_str().unicode_len();
    if n > MAX_VALUE_LEN {
        return false;
    }
    let mut i: usize = 0;
    while i < n
        invariant
            n == value@.len(),
            0 <= i <= n,
            forall|j: int| 0 <= j < i ==> value_char_ok(value@[j]),
        decreases n - i,
    {
        let c = value.as_str().get_char(i);
        if !(c as u32 >= 32 || c == '\t' || c == '\n' || c == '\r') {
            return false;
        }
        i += 1;
    }
    true
}

pub struct ConfigEntry {
    pub key: String,
    pub value: String,
}

impl View for ConfigEntry {
    type V = (Seq<char>, Seq<char>);

    open spec fn view(&self) -> (Seq<char>, Seq<char>) {
        (self.key@, self.value@)
    }
}

pub open spec fn entries_view(s: Seq<ConfigEntry>) -> Seq<(Seq<char>, Seq<char>)> {
    Seq::new(s.len(), |i: int| s[i]@)
}

/// Every stored pair is a validated key bound to a validated value.
pub open spec fn entries_valid(s: Seq<(Seq<char>, Seq<char>)>) -> bool {
    forall|i: int| 0 <= i < s.len() ==> valid_key_seq(s[i].0) && valid_value_seq(s[i].1)
}

/// The merged read view: the persistent tier overlaid by the ephemeral one.
pub open spec fn merged(
    p: Map<Seq<char>, Seq<char>>,
    e: Map<Seq<char>, Seq<char>>,
) -> Map<Seq<char>, Seq<char>> {
    p.union_prefer_right(e)
}

/// The persistent tier with every key the ephemeral tier shadows rewritten
/// to the ephemeral value, in persistent insertion order.
pub open spec fn overlay(
    p: Seq<(Seq<char>, Seq<char>)>,
    e: Map<Seq<char>, Seq<char>>,
) -> Seq<(Seq<char>, Seq<char>)> {
    Seq::new(p.len(), |i: int| (p[i].0, if e.contains_key(p[i].0) { e[p[i].0] } else { p[i].1 }))
}

/// The ephemeral pairs whose keys the persistent tier does not define, in
/// ephemeral insertion order.
pub open spec fn eph_only(
    e: Seq<(Seq<char>, Seq<char>)>,
    p: Map<Seq<char>, Seq<char>>,
) -> Seq<(Seq<char>, Seq<char>)>
    decreases e.len(),
{
    if e.len() == 0 {
        Seq::empty()
    } else if p.contains_key(e.last().0) {
        eph_only(e.drop_last(), p)
    } else {
        eph_only(e.drop_last(), p).push(e.last())
    }
}

/// The full merged listing: persistent keys first (with shadowed values),
/// then the keys only the ephemeral tier defines.
pub open spec fn merged_seq(
    p: Seq<(Seq<char>, Seq<char>)>,
    e: Seq<(Seq<char>, Seq<char>)>,
) -> Seq<(Seq<char>, Seq<char>)> {
    overlay(p, assoc_map(e)) + eph_only(e, assoc_map(p))
}

/// The two tiers after a `delete`: the key removed from the chosen tier
/// only; the other tier is untouched.
pub open spec fn cfg_after_delete(
    v: (Seq<(Seq<char>, Seq<char>)>, Seq<(Seq<char>, Seq<char>)>),
    k: Seq<char>,
    tier: ConfigTier,
) -> (Seq<(Seq<char>, Seq<char>)>, Seq<(Seq<char>, Seq<char>)>) {
    match tier {
        ConfigTier::Persistent => (remove_key(v.0, k), v.1),
        ConfigTier::Ephemeral => (v.0, remove_key(v.1, k)),
    }
}

/// The two tiers after a `set` of a validated pair.
pub open spec fn cfg_after_set(
    v: (Seq<(Seq<char>, Seq<char>)>, Seq<(Seq<char>, Seq<char>)>),
    k: Seq<char>,
    val: Seq<char>,
    tier: ConfigTier,
) -> (Seq<(Seq<char>, Seq<char>)>, Seq<(Seq<char>, Seq<char>)>) {
    match tier {
        ConfigTier::Persistent => (upsert(v.0, k, val), v.1),
        ConfigTier::Ephemeral => (v.0, upsert(v.1, k, val)),
    }
}

pub struct ModuleConfigStore {
    persistent: Vec<ConfigEntry>,
    ephemeral: Vec<ConfigEntry>,
}

impl View for ModuleConfigStore {
    type V = (Seq<(Seq<char>, Seq<char>)>, Seq<(Seq<char>, Seq<char>)>);

    closed spec fn view(&self) -> (Seq<(Seq<char>, Seq<char>)>, Seq<(Seq<char>, Seq<char>)>) {
        (entries_view(self.persistent@), entries_view(self.ephemeral@))
    }
}

fn find_in(v: &Vec<ConfigEntry>, key: &String) -> (r: Option<usize>)
    ensures
        r matches Some(i) ==> key_index(entries_view(v@), key@) == i,
        r is None ==> key_index(entries_view(v@), key@) == -1,
{
    let n = v.len();
    let mut i: usize = 0;
    while i < n
        invariant
            n == v.len(),
            0 <= i <= n,
            forall|j: int| 0 <= j < i ==> entries_view(v@)[j].0 != key@,
        decreases n - i,
    {
        if v[i].key.eq(key) {
            proof {
                lemma_key_index_is(entries_view(v@), key@, i as int);
            }
            return Some(i);
        }
        i += 1;
    }
    proof {
        lemma_key_index_absent(entries_view(v@), key@);
    }
    None
}

impl ModuleConfigStore {
    /// In each tier, keys are unique and every stored pair was validated.
    pub open spec fn wf(&self) -> bool {
        distinct_keys(self@.0) && distinct_keys(self@.1) && entries_valid(self@.0)
            && entries_valid(self@.1)
    }

    pub open spec fn pmap(&self) -> Map<Seq<char>, Seq<char>> {
        assoc_map(self@.0)
    }

    pub open spec fn emap(&self) -> Map<Seq<char>, Seq<char>> {
        assoc_map(self@.1)
    }

    pub fn new() -> (r: ModuleConfigStore)
        ensures
            r.wf(),
            r@.0 == Seq::<(Seq<char>, Seq<char>)>::empty(),
            r@.1 == Seq::<(Seq<char>, Seq<char>)>::empty(),
    {
        let r = ModuleConfigStore { persistent: Vec::new(), ephemeral: Vec::new() };
        proof {
            assert(r@.0 =~= Seq::<(Seq<char>, Seq<char>)>::empty());
            assert(r@.1 =~= Seq::<(Seq<char>, Seq<char>)>::empty());
        }
        r
    }

    /// Store `key = value` in the chosen tier, replacing that tier's prior
    /// binding of the key; the other tier is untouched.  An invalid key or
    /// value is rejected before any mutation.
    pub fn set(&mut self, key: &String, value: &String, tier: ConfigTier) -> (r: Result<
        (),
        ConfigError,
    >)
        requires
            old(self).wf(),
        ensures
            final(self).wf(),
            r is Ok <==> valid_key_seq(key@) && valid_value_seq(value@),
            !valid_key_seq(key@) ==> (r matches Err(e) && e matches ConfigError::InvalidKey(k)
                && k@ == key@),
            valid_key_seq(key@) && !valid_value_seq(value@) ==> r matches Err(
                ConfigError::InvalidValue,
            ),
            r is Err ==> final(self)@ == old(self)@,
            r is Ok ==> final(self)@ == cfg_after_set(old(self)@, key@, value@, tier),
    {
        if !validate_key(key) {
            return Err(ConfigError::InvalidKey(key.clone()));
        }
        if !validate_value(value) {
            return Err(ConfigError::InvalidValue);
        }
        let entry = ConfigEntry { key: key.clone(), value: value.clone() };
        match tier {
            ConfigTier::Persistent => {
                let ghost s0 = self@.0;
                proof {
                    lemma_upsert_found(s0, key@, value@);
                }
                match find_in(&self.persistent, key) {
                    Some(i) => {
                        proof {
                            lemma_key_index(s0, key@);
                        }
                        self.persistent.remove(i);
                        self.persistent.insert(i, entry);
                        proof {
                            assert(self@.0 =~= s0.update(key_index(s0, key@), (key@, value@)));
                            entries_valid_hint(s0, self@.0, key@, value@);
                        }
                    },
                    None => {
                        self.persistent.push(entry);
                        proof {
                            assert(self@.0 =~= s0.push((key@, value@)));
                            entries_valid_hint(s0, self@.0, key@, value@);
                        }
                    },
                }
            },
            ConfigTier::Ephemeral => {
                let ghost s0 = self@.1;
                proof {
                    lemma_upsert_found(s0, key@, value@);
                }
                match find_in(&self.ephemeral, key) {
                    Some(i) => {
                        proof {
                            lemma_key_index(s0, key@);
                        }
                        self.ephemeral.remove(i);
                        self.ephemeral.insert(i, entry);
                        proof {
                            assert(self@.1 =~= s0.update(key_index(s0, key@), (key@, value@)));
                            entries_valid_hint(s0, self@.1, key@, value@);
                        }
                    },
                    None => {
                        self.ephemeral.push(entry);
                        proof {
                            assert(self@.1 =~= s0.push((key@, value@)));
                            entries_valid_hint(s0, self@.1, key@, value@);
                        }
                    },
                }
            },
        }
        Ok(())
    }

    /// Read the merged value of `key`: the ephemeral binding when there is
    /// one, else the persistent binding, else a not-found error naming the
    /// key.
    pub fn get(&self, key: &String) -> (r: Result<String, ConfigError>)
        requires
            self.wf(),
        ensures
            r is Ok <==> merged(self.pmap(), self.emap()).contains_key(key@),
            r matches Ok(v) ==> v@ == merged(self.pmap(), self.emap())[key@],
            r matches Err(e) ==> e matches ConfigError::KeyNotFound(k) && k@ == key@,
    {
        proof {
            lemma_assoc_map_domain(self@.1, key@);
            lemma_assoc_map_domain(self@.0, key@);
            lemma_key_index(self@.1, key@);
            lemma_key_index(self@.0, key@);
        }
        match find_in(&self.ephemeral, key) {
            Some(i) => {
                proof {
                    lemma_assoc_map_at(self@.1, i as int);
                }
                Ok(self.ephemeral[i].value.clone())
            },
            None => match find_in(&self.persistent, key) {
                Some(i) => {
                    proof {
                        lemma_assoc_map_at(self@.0, i as int);
                    }
                    Ok(self.persistent[i].value.clone())
                },
                None => Err(ConfigError::KeyNotFound(key.clone())),
            },
        }
    }

    /// The full merged listing; an empty store is an empty listing, not an
    /// error.
    pub fn list(&self) -> (r: Vec<ConfigEntry>)
        requires
            self.wf(),
        ensures
            entries_view(r@) == merged_seq(self@.0, self@.1),
    {
        let mut r: Vec<ConfigEntry> = Vec::new();
        let np = self.persistent.len();
        let mut i: usize = 0;
        while i < np
            invariant
                self.wf(),
                np == self.persistent.len(),
                0 <= i <= np,
                r@.len() == i,
                forall|j: int| 0 <= j < i ==> r@[j]@ == overlay(self@.0, self.emap())[j],
            decreases np - i,
        {
            let key = self.persistent[i].key.clone();
            proof {
                lemma_assoc_map_domain(self@.1, key@);
                lemma_key_index(self@.1, key@);
            }
            let value = match find_in(&self.ephemeral, &key) {
                Some(ei) => {
                    proof {
                        lemma_assoc_map_at(self@.1, ei as int);
                    }
                    self.ephemeral[ei].value.clone()
                },
                None => self.persistent[i].value.clone(),
            };
            r.push(ConfigEntry { key, value });
            i += 1;
        }
        let ghost over = overlay(self@.0, self.emap());
        proof {
            assert(entries_view(r@) =~= over);
            assert(entries_view(r@) =~= over + eph_only(self@.1.subrange(0, 0), self.pmap()));
        }
        let ne = self.ephemeral.len();
        let mut k: usize = 0;
        while k < ne
            invariant
                self.wf(),
                ne == self.ephemeral.len(),
                0 <= k <= ne,
                over == overlay(self@.0, self.emap()),
                entries_view(r@) == over + eph_only(self@.1.subrange(0, k as int), self.pmap()),
            decreases ne - k,
        {
            let key = self.ephemeral[k].key.clone();
            proof {
                lemma_assoc_map_domain(self@.0, key@);
                lemma_key_index(self@.0, key@);
                assert(self@.1.subrange(0, k + 1).drop_last() =~= self@.1.subrange(0, k as int));
                assert(self@.1.subrange(0, k + 1).last() == self@.1[k as int]);
                assert(self@.1[k as int].0 == key@);
            }
            match find_in(&self.persistent, &key) {
                Some(_) => {
                },
                None => {
                    let value = self.ephemeral[k].value.clone();
                    proof {
                        assert(self@.1[k as int].1 == value@);
                    }
                    let ghost r0 = r@;
                    r.push(ConfigEntry { key, value });
                    proof {
                        assert(!self.pmap().contains_key(self@.1[k as int].0));
                        assert(eph_only(self@.1.subrange(0, k + 1), self.pmap()) == eph_only(
                            self@.1.subrange(0, k as int),
                            self.pmap(),
                        ).push(self@.1[k as int]));
                        assert(entries_view(r@) =~= entries_view(r0).push(self@.1[k as int]));
                        assert(over + eph_only(self@.1.subrange(0, k as int), self.pmap()).push(
                            self@.1[k as int],
                        ) =~= (over + eph_only(self@.1.subrange(0, k as int), self.pmap())).push(
                            self@.1[k as int],
                        ));
                        assert(entries_view(r@) == over + eph_only(
                            self@.1.subrange(0, k + 1),
                            self.pmap(),
                        ));
                    }
                },
            }
            k += 1;
        }
        proof {
            assert(self@.1.subrange(0, ne as int) =~= self@.1);
        }
        r
    }

    /// Delete `key` from the chosen tier only; absence is not an error, and
    /// the other tier keeps any binding it has for the same key.
    pub fn delete(&mut self, key: &String, tier: ConfigTier)
        requires
            old(self).wf(),
        ensures
            final(self).wf(),
            final(self)@ == cfg_after_delete(old(self)@, key@, tier),
    {
        match tier {
            ConfigTier::Persistent => {
                let ghost s0 = self@.0;
                proof {
                    lemma_remove_key_wrap(s0, key@);
                }
                match find_in(&self.persistent, key) {
                    Some(i) => {
                        proof {
                            lemma_key_index(s0, key@);
                        }
                        self.persistent.remove(i);
                        proof {
                            assert(self@.0 =~= s0.remove(key_index(s0, key@)));
                        }
                    },
                    None => {},
                }
            },
            ConfigTier::Ephemeral => {
                let ghost s0 = self@.1;
                proof {
                    lemma_remove_key_wrap(s0, key@);
                }
                match find_in(&self.ephemeral, key) {
                    Some(i) => {
                        proof {
                            lemma_key_index(s0, key@);
                        }
                        self.ephemeral.remove(i);
                        proof {
                            assert(self@.1 =~= s0.remove(key_index(s0, key@)));
                        }
                    },
                    None => {},
                }
            },
        }
    }

    /// Remove every key from the chosen tier only.
    pub fn clear(&mut self, tier: ConfigTier)
        requires
            old(self).wf(),
        ensures
            final(self).wf(),
            tier == ConfigTier::Persistent ==> final(self)@.0
                == Seq::<(Seq<char>, Seq<char>)>::empty() && final(self)@.1 == old(self)@.1,
            tier == ConfigTier::Ephemeral ==> final(self)@.1
                == Seq::<(Seq<char>, Seq<char>)>::empty() && final(self)@.0 == old(self)@.0,
    {
        match tier {
            ConfigTier::Persistent => {
                self.persistent.clear();
                proof {
                    assert(self@.0 =~= Seq::<(Seq<char>, Seq<char>)>::empty());
                }
            },
            ConfigTier::Ephemeral => {
                self.ephemeral.clear();
                proof {
                    assert(self@.1 =~= Seq::<(Seq<char>, Seq<char>)>::empty());
                }
            },
        }
    }
}

/// An upsert of a validated pair keeps every stored pair validated.
proof fn entries_valid_hint(
    s0: Seq<(Seq<char>, Seq<char>)>,
    t: Seq<(Seq<char>, Seq<char>)>,
    k: Seq<char>,
    v: Seq<char>,
)
    requires
        entries_valid(s0),
        valid_key_seq(k),
        valid_value_seq(v),
        t == upsert(s0, k, v),
    ensures
        entries_valid(t),
{
    let i = key_index(s0, k);
    lemma_key_index(s0, k);
    assert forall|j: int| 0 <= j < t.len() implies valid_key_seq(t[j].0) && valid_value_seq(
        t[j].1,
    ) by {
        if i >= 0 {
            if j != i {
                assert(t[j] == s0[j]);
            }
        } else {
            if j < s0.len() {
                assert(t[j] == s0[j]);
            }
        }
    }
}

/// Removal preserves distinctness and validity of the remaining pairs.
proof fn lemma_remove_key_wrap(s: Seq<(Seq<char>, Seq<char>)>, k: Seq<char>)
    requires
        distinct_keys(s),
        entries_valid(s),
    ensures
        distinct_keys(remove_key(s, k)),
        entries_valid(remove_key(s, k)),
        assoc_map(remove_key(s, k)) == assoc_map(s).remove(k),
{
    crate::assoc::lemma_remove_key(s, k);
    let t = remove_key(s, k);
    let i = key_index(s, k);
    lemma_key_index(s, k);
    if i >= 0 {
        assert forall|j: int| 0 <= j < t.len() implies valid_key_seq(t[j].0) && valid_value_seq(
            t[j].1,
        ) by {
            if j < i {
                assert(t[j] == s[j]);
            } else {
                assert(t[j] == s[j + 1]);
            }
        }
    }
}

/// The overlaid persistent tier keeps exactly the persistent keys, each
/// bound to the ephemeral value when the ephemeral tier shadows it.
proof fn lemma_overlay_map(p: Seq<(Seq<char>, Seq<char>)>, em: Map<Seq<char>, Seq<char>>)
    ensures
        forall|k: Seq<char>|
            assoc_map(overlay(p, em)).contains_key(k) <==> (#[trigger] assoc_map(p).contains_key(
                k,
            )),
        forall|k: Seq<char>|
            #[trigger] assoc_map(p).contains_key(k) ==> assoc_map(overlay(p, em))[k] == (
            if em.contains_key(k) {
                em[k]
            } else {
                assoc_map(p)[k]
            }),
    decreases p.len(),
{
    if p.len() > 0 {
        let ov = overlay(p, em);
        let p1 = p.drop_last();
        assert(ov.drop_last() =~= overlay(p1, em));
        lemma_overlay_map(p1, em);
        assert(ov.last() == (
            p.last().0,
            if em.contains_key(p.last().0) {
                em[p.last().0]
            } else {
                p.last().1
            },
        ));
        assert(assoc_map(ov) == assoc_map(overlay(p1, em)).insert(ov.last().0, ov.last().1));
        assert(assoc_map(p) == assoc_map(p1).insert(p.last().0, p.last().1));
        assert forall|k: Seq<char>| #[trigger] assoc_map(p).contains_key(k) implies assoc_map(
            ov,
        ).contains_key(k) && assoc_map(ov)[k] == (
        if em.contains_key(k) {
            em[k]
        } else {
            assoc_map(p)[k]
        }) by {
            if k != p.last().0 {
                assert(assoc_map(p1).contains_key(k));
            }
        }
        assert forall|k: Seq<char>| assoc_map(ov).contains_key(k) implies (
        #[trigger] assoc_map(p).contains_key(k)) by {
            if k != p.last().0 {
                assert(assoc_map(overlay(p1, em)).contains_key(k));
                assert(assoc_map(p1).contains_key(k));
            }
        }
    }
}

/// The ephemeral-only pairs abstract to the ephemeral map without the
/// persistent keys, and each of their keys comes from the ephemeral tier
/// and is absent from the persistent one.
proof fn lemma_eph_only_map(e: Seq<(Seq<char>, Seq<char>)>, pm: Map<Seq<char>, Seq<char>>)
    requires
        distinct_keys(e),
    ensures
        assoc_map(eph_only(e, pm)) == assoc_map(e).remove_keys(pm.dom()),
        distinct_keys(eph_only(e, pm)),
        forall|j: int|
            0 <= j < eph_only(e, pm).len() ==> !pm.contains_key(
                (#[trigger] eph_only(e, pm)[j]).0,
            ) && key_index(e, eph_only(e, pm)[j].0) >= 0,
    decreases e.len(),
{
    let t = eph_only(e, pm);
    if e.len() == 0 {
        assert(assoc_map(t) =~= assoc_map(e).remove_keys(pm.dom()));
    } else {
        let e1 = e.drop_last();
        assert(distinct_keys(e1));
        lemma_eph_only_map(e1, pm);
        let t1 = eph_only(e1, pm);
        assert forall|j: int| 0 <= j < t1.len() implies t1[j].0 != e.last().0 by {
            lemma_key_index(e1, t1[j].0);
            let i = key_index(e1, t1[j].0);
            assert(e[i] == e1[i]);
        }
        if pm.contains_key(e.last().0) {
            assert(assoc_map(e).remove_keys(pm.dom()) =~= assoc_map(e1).remove_keys(pm.dom()));
            assert forall|j: int| 0 <= j < t.len() implies !pm.contains_key((#[trigger] t[j]).0)
                && key_index(e, t[j].0) >= 0 by {
                lemma_key_index(e1, t[j].0);
                lemma_key_index(e, t[j].0);
                if key_index(e, t[j].0) == -1 {
                    assert(e[key_index(e1, t[j].0)].0 == t[j].0);
                }
            }
        } else {
            assert(t == t1.push(e.last()));
            assert(t.drop_last() =~= t1);
            assert(assoc_map(t) == assoc_map(t1).insert(e.last().0, e.last().1));
            assert(assoc_map(e1).remove_keys(pm.dom()).insert(e.last().0, e.last().1)
                =~= assoc_map(e1).insert(e.last().0, e.last().1).remove_keys(pm.dom()));
            assert forall|a: int, b: int| 0 <= a < b < t.len() implies t[a].0 != t[b].0 by {
                if b < t1.len() {
                    assert(t[a] == t1[a] && t[b] == t1[b]);
                } else {
                    assert(t[a] == t1[a]);
                }
            }
            assert forall|j: int| 0 <= j < t.len() implies !pm.contains_key((#[trigger] t[j]).0)
                && key_index(e, t[j].0) >= 0 by {
                if j < t1.len() {
                    assert(t[j] == t1[j]);
                    lemma_key_index(e1, t[j].0);
                    lemma_key_index(e, t[j].0);
                    if key_index(e, t[j].0) == -1 {
                        assert(e[key_index(e1, t[j].0)].0 == t[j].0);
                    }
                } else {
                    assert(t[j] == e.last());
                    lemma_key_index(e, e.last().0);
                    if key_index(e, e.last().0) == -1 {
                        assert(e[e.len() - 1].0 == e.last().0);
                    }
                }
            }
        }
    }
}

/// Law: the merged listing is exactly the merged map — every key once, the
/// ephemeral value winning for shared keys — whatever order either tier
/// stores its pairs in.
pub proof fn lemma_merge_deterministic(
    p: Seq<(Seq<char>, Seq<char>)>,
    e: Seq<(Seq<char>, Seq<char>)>,
)
    requires
        distinct_keys(p),
        distinct_keys(e),
    ensures
        distinct_keys(merged_seq(p, e)),
        assoc_map(merged_seq(p, e)) == merged(assoc_map(p), assoc_map(e)),
{
    let pm = assoc_map(p);
    let em = assoc_map(e);
    let ov = overlay(p, em);
    let ex = eph_only(e, pm);
    lemma_overlay_map(p, em);
    lemma_eph_only_map(e, pm);
    lemma_assoc_map_concat(ov, ex);
    assert(assoc_map(ov).union_prefer_right(assoc_map(ex)) =~= merged(pm, em)) by {
        assert forall|k: Seq<char>| #[trigger] merged(pm, em).contains_key(k) implies assoc_map(
            ov,
        ).union_prefer_right(assoc_map(ex)).contains_key(k) && assoc_map(ov).union_prefer_right(
            assoc_map(ex),
        )[k] == merged(pm, em)[k] by {}
    }
    assert forall|a: int, b: int|
        0 <= a < b < merged_seq(p, e).len() implies merged_seq(p, e)[a].0 != merged_seq(
        p,
        e,
    )[b].0 by {
        let m = merged_seq(p, e);
        if b < ov.len() {
            assert(m[a] == ov[a] && m[b] == ov[b]);
            assert(ov[a].0 == p[a].0 && ov[b].0 == p[b].0);
        } else if a >= ov.len() {
            assert(m[a] == ex[a - ov.len()] && m[b] == ex[b - ov.len()]);
        } else {
            assert(m[a] == ov[a] && m[b] == ex[b - ov.len()]);
            assert(ov[a].0 == p[a].0);
            lemma_assoc_map_domain(p, p[a].0);
            assert(pm.contains_key(p[a].0));
            assert(!pm.contains_key(ex[b - ov.len()].0));
        }
    }
}

/// Law: when both tiers define a key, the merged view reads the ephemeral
/// value; once the ephemeral tier no longer defines it, the merged view
/// reads the persistent value.
pub proof fn lemma_ephemeral_shadows(
    p: Map<Seq<char>, Seq<char>>,
    e: Map<Seq<char>, Seq<char>>,
    k: Seq<char>,
)
    requires
        p.contains_key(k),
    ensures
        e.contains_key(k) ==> merged(p, e)[k] == e[k],
        !e.contains_key(k) ==> merged(p, e)[k] == p[k],
        merged(p, Map::<Seq<char>, Seq<char>>::empty())[k] == p[k],
{
}

/// Law: deleting a key from one tier never removes it from the other.
pub proof fn lemma_delete_tier_isolated(
    v: (Seq<(Seq<char>, Seq<char>)>, Seq<(Seq<char>, Seq<char>)>),
    k: Seq<char>,
)
    ensures
        cfg_after_delete(v, k, ConfigTier::Persistent).1 == v.1,
        cfg_after_delete(v, k, ConfigTier::Ephemeral).0 == v.0,
{
}

} // verus!
