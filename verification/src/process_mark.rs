//! The process mark registry: the set of process ids tagged for
//! differentiated handling.  Pseudo-pid 0 is a wildcard at the command
//! level ("all processes" when mutating, "total marked count" when
//! reading) and is never itself stored.  Entries live only for the
//! current boot.

use vstd::prelude::*;

verus! {

/// The set of pids named by a sequence (the registry's abstraction).
pub open spec fn pid_set(s: Seq<i32>) -> Set<i32>
    decreases s.len(),
{
    if s.len() == 0 {
        Set::empty()
    } else {
        pid_set(s.drop_last()).insert(s.last())
    }
}

/// The set of nonzero pids in a snapshot of the process table (pid 0 is the
/// wildcard, not a markable process).
pub open spec fn nz_set(s: Seq<i32>) -> Set<i32>
    decreases s.len(),
{
    if s.len() == 0 {
        Set::empty()
    } else if s.last() == 0 {
        nz_set(s.drop_last())
    } else {
        nz_set(s.drop_last()).insert(s.last())
    }
}

pub proof fn lemma_pid_set_finite(s: Seq<i32>)
    ensures
        pid_set(s).finite(),
    decreases s.len(),
{
    if s.len() > 0 {
        lemma_pid_set_finite(s.drop_last());
    }
}

pub proof fn lemma_pid_set_contains(s: Seq<i32>, p: i32)
    ensures
        pid_set(s).contains(p) <==> exists|i: int| 0 <= i < s.len() && s[i] == p,
    decreases s.len(),
{
    if s.len() > 0 {
        lemma_pid_set_contains(s.drop_last(), p);
        if exists|i: int| 0 <= i < s.len() && s[i] == p {
            let i = choose|i: int| 0 <= i < s.len() && s[i] == p;
            if i < s.len() - 1 {
                assert(s.drop_last()[i] == p);
            }
        }
        assert forall|i: int| 0 <= i < s.len() - 1 implies s.drop_last()[i] == s[i] by {}
    }
}

pub proof fn lemma_pid_set_len(s: Seq<i32>)
    requires
        s.no_duplicates(),
    ensures
        pid_set(s).finite(),
        pid_set(s).len() == s.len(),
    decreases s.len(),
{
    lemma_pid_set_finite(s);
    if s.len() > 0 {
        let t = s.drop_last();
        assert(t.no_duplicates());
        lemma_pid_set_len(t);
        lemma_pid_set_contains(t, s.last());
        assert forall|i: int| 0 <= i < t.len() implies t[i] != s.last() by {
            assert(s[i] == t[i]);
        }
        assert(!pid_set(t).contains(s.last()));
    }
}

pub proof fn lemma_pid_set_remove(s: Seq<i32>, i: int)
    requires
        s.no_duplicates(),
        0 <= i < s.len(),
    ensures
        s.remove(i).no_duplicates(),
        pid_set(s.remove(i)) == pid_set(s).remove(s[i]),
    decreases s.len(),
{
    let t = s.remove(i);
    assert(t.no_duplicates());
    if i == s.len() - 1 {
        assert(t =~= s.drop_last());
        lemma_pid_set_contains(s.drop_last(), s[i]);
        assert forall|j: int| 0 <= j < s.len() - 1 implies s.drop_last()[j] != s[i] by {
            assert(s.drop_last()[j] == s[j]);
        }
        assert(!pid_set(s.drop_last()).contains(s[i]));
        assert(pid_set(s).remove(s[i]) =~= pid_set(s.drop_last()));
    } else {
        assert(t.drop_last() =~= s.drop_last().remove(i));
        assert(s.drop_last()[i] == s[i]);
        lemma_pid_set_remove(s.drop_last(), i);
        assert(t.last() == s.last());
        assert(pid_set(t) == pid_set(s.drop_last()).remove(s[i]).insert(s.last()));
        assert(s.last() != s[i]);
        assert(pid_set(s.drop_last()).remove(s[i]).insert(s.last())
            =~= pid_set(s.drop_last()).insert(s.last()).remove(s[i]));
    }
}

pub struct ProcessMarkRegistry {
    marked: Vec<i32>,
}

impl View for ProcessMarkRegistry {
    type V = Set<i32>;

    closed spec fn view(&self) -> Set<i32> {
        pid_set(self.marked@)
    }
}

impl ProcessMarkRegistry {
    /// Each pid is stored at most once and the wildcard pid 0 never is.
    pub closed spec fn wf(&self) -> bool {
        self.marked@.no_duplicates() && forall|i: int|
            0 <= i < self.marked@.len() ==> self.marked@[i] != 0
    }

    pub fn new() -> (r: ProcessMarkRegistry)
        ensures
            r@ == Set::<i32>::empty(),
            r.wf(),
    {
        ProcessMarkRegistry { marked: Vec::new() }
    }

    fn find(&self, pid: i32) -> (r: Option<usize>)
        ensures
            r matches Some(i) ==> i < self.marked@.len() && self.marked@[i as int] == pid,
            r is None ==> !self@.contains(pid),
    {
        let n = self.marked.len();
        let mut i: usize = 0;
        while i < n
            invariant
                n == self.marked.len(),
                0 <= i <= n,
                forall|j: int| 0 <= j < i ==> self.marked@[j] != pid,
            decreases n - i,
        {
            if self.marked[i] == pid {
                return Some(i);
            }
            i += 1;
        }
        proof {
            lemma_pid_set_contains(self.marked@, pid);
        }
        None
    }

    /// Whether `pid` is currently marked.
    pub fn is_marked(&self, pid: i32) -> (r: bool)
        ensures
            r == self@.contains(pid),
    {
        proof {
            lemma_pid_set_contains(self.marked@, pid);
        }
        self.find(pid).is_some()
    }

    /// The number of marked processes (the answer a wildcard `get` reports).
    pub fn count(&self) -> (r: usize)
        requires
            self.wf(),
        ensures
            self@.finite(),
            r == self@.len(),
    {
        proof {
            lemma_pid_set_len(self.marked@);
        }
        self.marked.len()
    }

    /// Mark one process; marking an already-marked pid is a no-op success.
    pub fn mark_one(&mut self, pid: i32)
        requires
            old(self).wf(),
            pid != 0,
        ensures
            final(self).wf(),
            final(self)@ == old(self)@.insert(pid),
    {
        match self.find(pid) {
            Some(_) => {
                proof {
                    lemma_pid_set_contains(self.marked@, pid);
                    assert(self@.insert(pid) =~= self@);
                }
            },
            None => {
                let ghost s0 = self.marked@;
                proof {
                    lemma_pid_set_contains(s0, pid);
                }
                self.marked.push(pid);
                proof {
                    assert(self.marked@.drop_last() =~= s0);
                }
            },
        }
    }

    /// Unmark one process; unmarking an already-unmarked pid is a no-op
    /// success.
    pub fn unmark_one(&mut self, pid: i32)
        requires
            old(self).wf(),
        ensures
            final(self).wf(),
            final(self)@ == old(self)@.remove(pid),
    {
        match self.find(pid) {
            Some(i) => {
                let ghost s0 = self.marked@;
                proof {
                    lemma_pid_set_remove(s0, i as int);
                }
                self.marked.remove(i);
            },
            None => {
                proof {
                    assert(self@.remove(pid) =~= self@);
                }
            },
        }
    }

    /// Mark every process in a snapshot of the running-process table; the
    /// wildcard pid 0 is ignored if present.
    pub fn mark_all(&mut self, running: &Vec<i32>)
        requires
            old(self).wf(),
        ensures
            final(self).wf(),
            final(self)@ == old(self)@.union(nz_set(running@)),
    {
        let ghost m0 = self@;
        let n = running.len();
        let mut i: usize = 0;
        proof {
            assert(m0.union(nz_set(running@.take(0))) =~= m0);
        }
        while i < n
            invariant
                self.wf(),
                n == running.len(),
                0 <= i <= n,
                self@ == m0.union(nz_set(running@.take(i as int))),
            decreases n - i,
        {
            let pid = running[i];
            proof {
                assert(running@.take(i + 1).drop_last() =~= running@.take(i as int));
                assert(running@.take(i + 1).last() == running@[i as int]);
            }
            if pid != 0 {
                self.mark_one(pid);
                proof {
                    assert(m0.union(nz_set(running@.take(i as int))).insert(pid)
                        =~= m0.union(nz_set(running@.take(i as int)).insert(pid)));
                }
            }
            i += 1;
        }
        proof {
            assert(running@.take(n as int) =~= running@);
        }
    }

    /// Unmark every process.
    pub fn unmark_all(&mut self)
        ensures
            final(self).wf(),
            final(self)@ == Set::<i32>::empty(),
    {
        self.marked.clear();
    }

    /// Re-derive the registry from the set of processes the current policy
    /// marks: afterwards exactly the nonzero pids of that snapshot are
    /// marked, whatever was marked before.
    pub fn refresh(&mut self, marked_now: &Vec<i32>)
        ensures
            final(self).wf(),
            final(self)@ == nz_set(marked_now@),
    {
        self.unmark_all();
        self.mark_all(marked_now);
        proof {
            assert(Set::<i32>::empty().union(nz_set(marked_now@)) =~= nz_set(marked_now@));
        }
    }
}

/// Law: marking all processes of a duplicate-free snapshot of nonzero pids,
/// starting from an empty registry, leaves the marked count equal to the
/// number of running processes.
pub proof fn lemma_mark_all_count(running: Seq<i32>)
    requires
        running.no_duplicates(),
        forall|i: int| 0 <= i < running.len() ==> running[i] != 0,
    ensures
        Set::<i32>::empty().union(nz_set(running)) == nz_set(running),
        nz_set(running).finite(),
        nz_set(running).len() == running.len(),
    decreases running.len(),
{
    assert(Set::<i32>::empty().union(nz_set(running)) =~= nz_set(running));
    if running.len() > 0 {
        let t = running.drop_last();
        assert(t.no_duplicates());
        assert forall|i: int| 0 <= i < t.len() implies t[i] != 0 by {
            assert(t[i] == running[i]);
        }
        lemma_mark_all_count(t);
        lemma_pid_set_contains(t, running.last());
        assert(nz_set(t) =~= pid_set(t)) by {
            lemma_nz_set_all_nonzero(t);
        }
        assert forall|i: int| 0 <= i < t.len() implies t[i] != running.last() by {
            assert(running[i] == t[i]);
        }
        assert(!nz_set(t).contains(running.last()));
    }
}

/// On a snapshot without pid 0 the two set abstractions coincide.
pub proof fn lemma_nz_set_all_nonzero(s: Seq<i32>)
    requires
        forall|i: int| 0 <= i < s.len() ==> s[i] != 0,
    ensures
        nz_set(s) == pid_set(s),
    decreases s.len(),
{
    if s.len() > 0 {
        let t = s.drop_last();
        assert forall|i: int| 0 <= i < t.len() implies t[i] != 0 by {
            assert(t[i] == s[i]);
        }
        lemma_nz_set_all_nonzero(t);
        assert(s.last() != 0);
    }
}

/// Law: unmarking a pid that is not marked leaves the registry unchanged.
pub proof fn lemma_unmark_absent(m: Set<i32>, pid: i32)
    requires
        !m.contains(pid),
    ensures
        m.remove(pid) == m,
{
    assert(m.remove(pid) =~= m);
}

} // verus!
