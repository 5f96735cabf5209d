//! The bookkeeping model of one metadata table.
//!
//! A metadata table is nothing but a set of recorded versions with
//! primary-key semantics: inserting a recorded version fails, deleting an
//! absent one is a no-op, and the current version is the maximum of the
//! set. `VersionStore` is an executable model of exactly those semantics;
//! the adapter relies on the storage layer to provide them, and the laws
//! at the bottom of this module are proved against the same model.

use vstd::prelude::*;

verus! {

/// A migration's identifier: ordered, and unique among registered
/// migrations (uniqueness is the runner's responsibility).
pub type Version = i64;

/// What "current version" means for a set of recorded versions: the
/// maximum recorded version, or nothing when the set is empty. The order
/// of insertion plays no part.
pub open spec fn is_current_version(s: Set<i64>, c: Option<i64>) -> bool {
    match c {
        None => forall|v: i64| !s.contains(v),
        Some(m) => s.contains(m) && forall|v: i64| s.contains(v) ==> v <= m,
    }
}

/// The storage-level bookkeeping failures the model distinguishes.
#[derive(Clone, Copy, PartialEq, Eq, Structural, Debug)]
pub enum StoreError {
    /// The metadata table addressed does not exist.
    MissingTable,
    /// The version to record is already recorded: the primary key
    /// tolerates no duplicate row.
    DuplicateVersion,
}

/// An executable model of one metadata table: the set of recorded
/// versions, under the storage semantics the adapter relies on.
pub struct VersionStore {
    versions: Vec<i64>,
}

impl View for VersionStore {
    type V = Set<i64>;

    closed spec fn view(&self) -> Set<i64> {
        self.versions@.to_set()
    }
}

impl VersionStore {
    /// The representation holds each recorded version exactly once, as a
    /// primary-key column does.
    pub closed spec fn wf(&self) -> bool {
        self.versions@.no_duplicates()
    }

    /// A freshly bootstrapped table: no version recorded.
    pub fn new() -> (s: VersionStore)
        ensures
            s.wf(),
            s@ == Set::<i64>::empty(),
    {
        let s = VersionStore { versions: Vec::new() };
        proof {
            assert(s@ =~= Set::<i64>::empty());
        }
        s
    }

    /// Whether `v` is recorded, i.e. whether the migration `v` counts as
    /// applied.
    pub fn contains(&self, v: i64) -> (b: bool)
        ensures
            b == self@.contains(v),
    {
        let n = self.versions.len();
        let mut i: usize = 0;
        while i < n
            invariant
                n == self.versions@.len(),
                0 <= i <= n,
                forall|j: int| 0 <= j < i ==> self.versions@[j] != v,
            decreases n - i,
        {
            if self.versions[i] == v {
                proof {
                    assert(self.versions@.contains(v));
                }
                return true;
            }
            i += 1;
        }
        proof {
            assert(!self.versions@.contains(v));
        }
        false
    }

    /// Record `v`. Recording an already-recorded version fails, as a
    /// primary-key insert does, and leaves the table untouched.
    pub fn record(&mut self, v: i64) -> (r: Result<(), StoreError>)
        requires
            old(self).wf(),
        ensures
            final(self).wf(),
            r is Ok <==> !old(self)@.contains(v),
            r is Ok ==> final(self)@ == old(self)@.insert(v),
            r is Err ==> final(self)@ == old(self)@,
            r matches Err(e) ==> e == StoreError::DuplicateVersion,
    {
        if self.contains(v) {
            Err(StoreError::DuplicateVersion)
        } else {
            let ghost s0 = self.versions@;
            self.versions.push(v);
            proof {
                assert forall|i: int, j: int|
                    0 <= i < self.versions@.len() && 0 <= j < self.versions@.len() && i != j
                    implies self.versions@[i] != self.versions@[j] by {
                    if i < s0.len() && j < s0.len() {
                        assert(s0[i] != s0[j]);
                    } else if j == s0.len() {
                        assert(s0.contains(s0[i]));
                    } else {
                        assert(s0.contains(s0[j]));
                    }
                }
                assert forall|x: i64| self.versions@.contains(x)
                    implies s0.to_set().insert(v).contains(x) by {
                    let k = choose|k: int|
                        0 <= k < self.versions@.len() && self.versions@[k] == x;
                    if k < s0.len() {
                        assert(s0.contains(x));
                    }
                }
                assert forall|x: i64| s0.to_set().insert(v).contains(x)
                    implies self.versions@.contains(x) by {
                    if s0.contains(x) {
                        let k = choose|k: int| 0 <= k < s0.len() && s0[k] == x;
                        assert(self.versions@[k] == x);
                    } else {
                        assert(self.versions@[s0.len() as int] == v);
                    }
                }
                assert(self.versions@.to_set() =~= s0.to_set().insert(v));
            }
            Ok(())
        }
    }

    /// Erase `v`. Erasing an absent version is a no-op, not an error, as a
    /// delete by key is; the result says whether a record was removed.
    pub fn erase(&mut self, v: i64) -> (removed: bool)
        requires
            old(self).wf(),
        ensures
            final(self).wf(),
            final(self)@ == old(self)@.remove(v),
            removed == old(self)@.contains(v),
    {
        let n = self.versions.len();
        let mut i: usize = 0;
        while i < n
            invariant
                n == self.versions@.len(),
                0 <= i <= n,
                old(self).wf(),
                self.versions@ == old(self).versions@,
                forall|j: int| 0 <= j < i ==> self.versions@[j] != v,
            decreases n - i,
        {
            if self.versions[i] == v {
                let ghost s0 = self.versions@;
                self.versions.remove(i);
                proof {
                    lemma_remove_unique(s0, i as int, v, self.versions@);
                }
                return true;
            }
            i += 1;
        }
        proof {
            assert(!self.versions@.contains(v));
            assert(self.versions@.to_set() =~= self.versions@.to_set().remove(v));
        }
        false
    }

    /// The current version: the maximum recorded version, or `None` when
    /// nothing is recorded — never the most recently inserted one.
    pub fn current(&self) -> (c: Option<i64>)
        ensures
            is_current_version(self@, c),
    {
        let n = self.versions.len();
        let mut best: Option<i64> = None;
        let mut i: usize = 0;
        while i < n
            invariant
                n == self.versions@.len(),
                0 <= i <= n,
                i == 0 ==> best is None,
                i > 0 ==> (best matches Some(m) && self.versions@.contains(m)
                    && forall|j: int| 0 <= j < i ==> self.versions@[j] <= m),
            decreases n - i,
        {
            let x = self.versions[i];
            proof {
                assert(self.versions@.contains(x));
            }
            best = match best {
                None => Some(x),
                Some(m) => if x > m {
                    Some(x)
                } else {
                    Some(m)
                },
            };
            i += 1;
        }
        proof {
            if n == 0 {
                assert forall|v: i64| !self@.contains(v) by {
                    if self.versions@.contains(v) {
                        let k = choose|k: int|
                            0 <= k < self.versions@.len() && self.versions@[k] == v;
                    }
                }
            } else {
                let m = best->Some_0;
                assert forall|v: i64| self@.contains(v) implies v <= m by {
                    let k = choose|k: int|
                        0 <= k < self.versions@.len() && self.versions@[k] == v;
                }
            }
        }
        best
    }

    /// How many versions are recorded.
    pub fn count(&self) -> (n: usize)
        requires
            self.wf(),
        ensures
            n == self@.len(),
    {
        proof {
            self.versions@.unique_seq_to_set();
        }
        self.versions.len()
    }

    /// Every recorded version, each exactly once: set semantics, no order
    /// promised.
    pub fn versions(&self) -> (out: Vec<i64>)
        requires
            self.wf(),
        ensures
            out@.to_set() == self@,
            out@.no_duplicates(),
    {
        let n = self.versions.len();
        let mut out: Vec<i64> = Vec::new();
        let mut i: usize = 0;
        while i < n
            invariant
                n == self.versions@.len(),
                0 <= i <= n,
                out@ == self.versions@.subrange(0, i as int),
            decreases n - i,
        {
            out.push(self.versions[i]);
            i += 1;
        }
        proof {
            assert(out@ == self.versions@);
        }
        out
    }
}

impl VersionStore {
    /// Build the recorded set from the version column of a full-table
    /// query. The storage layer's primary key already keeps the rows
    /// unique; the builder does not rely on that and deduplicates.
    pub fn from_rows(rows: &Vec<i64>) -> (s: VersionStore)
        ensures
            s.wf(),
            s@ == rows@.to_set(),
    {
        let n = rows.len();
        let mut s = VersionStore::new();
        let mut i: usize = 0;
        while i < n
            invariant
                n == rows@.len(),
                0 <= i <= n,
                s.wf(),
                s@ == rows@.subrange(0, i as int).to_set(),
            decreases n - i,
        {
            let v = rows[i];
            let ghost pre = s@;
            let _ = s.record(v);
            proof {
                if pre.contains(v) {
                    assert(pre.insert(v) =~= pre);
                }
                assert(rows@.subrange(0, i as int + 1) =~= rows@.subrange(0, i as int).push(
                    rows@[i as int],
                ));
                lemma_push_to_set(rows@.subrange(0, i as int), rows@[i as int]);
            }
            i += 1;
        }
        proof {
            assert(rows@.subrange(0, n as int) =~= rows@);
        }
        s
    }
}

/// Appending one element to a sequence adds exactly it to the set of the
/// sequence's elements.
proof fn lemma_push_to_set(s: Seq<i64>, v: i64)
    ensures
        s.push(v).to_set() == s.to_set().insert(v),
{
    assert forall|x: i64| s.push(v).contains(x) implies s.to_set().insert(v).contains(x) by {
        let k = choose|k: int| 0 <= k < s.push(v).len() && s.push(v)[k] == x;
        if k < s.len() {
            assert(s.contains(x));
        }
    }
    assert forall|x: i64| s.to_set().insert(v).contains(x) implies s.push(v).contains(x) by {
        if s.contains(x) {
            let k = choose|k: int| 0 <= k < s.len() && s[k] == x;
            assert(s.push(v)[k] == x);
        } else {
            assert(s.push(v)[s.len() as int] == v);
        }
    }
    assert(s.push(v).to_set() =~= s.to_set().insert(v));
}

/// Removing the one occurrence of `v` from a duplicate-free sequence
/// removes exactly `v` from the set of its elements.
proof fn lemma_remove_unique(s0: Seq<i64>, i: int, v: i64, s1: Seq<i64>)
    requires
        s0.no_duplicates(),
        0 <= i < s0.len(),
        s0[i] == v,
        s1 == s0.remove(i),
    ensures
        s1.no_duplicates(),
        s1.to_set() == s0.to_set().remove(v),
{
    assert forall|x: i64| s1.contains(x) implies s0.to_set().remove(v).contains(x) by {
        let k = choose|k: int| 0 <= k < s1.len() && s1[k] == x;
        if k < i {
            assert(s0[k] == x);
            assert(s0.contains(x));
        } else {
            assert(s0[k + 1] == x);
            assert(s0.contains(x));
        }
    }
    assert forall|x: i64| s0.to_set().remove(v).contains(x) implies s1.contains(x) by {
        let k = choose|k: int| 0 <= k < s0.len() && s0[k] == x;
        if k < i {
            assert(s1[k] == x);
        } else {
            assert(k != i);
            assert(s1[k - 1] == x);
        }
    }
    assert(s1.to_set() =~= s0.to_set().remove(v));
}

/// Applying a fresh version and then reverting it restores the recorded
/// set, and with it the current version; the version is no longer
/// recorded afterwards.
pub proof fn lemma_round_trip(s: Set<i64>, v: i64, before: Option<i64>, after: Option<i64>)
    requires
        !s.contains(v),
        is_current_version(s, before),
        is_current_version(s.insert(v).remove(v), after),
    ensures
        after == before,
        !s.insert(v).remove(v).contains(v),
{
    assert(s.insert(v).remove(v) =~= s);
    lemma_current_version_unique(s, before, after);
}

/// The current version is a function of the recorded set alone.
pub proof fn lemma_current_version_unique(s: Set<i64>, c1: Option<i64>, c2: Option<i64>)
    requires
        is_current_version(s, c1),
        is_current_version(s, c2),
    ensures
        c1 == c2,
{
    match (c1, c2) {
        (Some(m1), Some(m2)) => {
            assert(m1 <= m2 && m2 <= m1);
        },
        (Some(m1), None) => {
            assert(!s.contains(m1));
        },
        (None, Some(m2)) => {
            assert(!s.contains(m2));
        },
        (None, None) => {},
    }
}

/// Reverting a version that was never applied leaves the recorded set as
/// it was.
pub proof fn lemma_noop_revert(s: Set<i64>, v: i64)
    requires
        !s.contains(v),
    ensures
        s.remove(v) == s,
{
    assert(s.remove(v) =~= s);
}

/// A freshly bootstrapped table has no current version.
pub proof fn lemma_empty_current(c: Option<i64>)
    requires
        is_current_version(Set::<i64>::empty(), c),
    ensures
        c is None,
{
    match c {
        Some(m) => {
            assert(!Set::<i64>::empty().contains(m));
        },
        None => {},
    }
}

} // verus!
