//! An executable model of one database schema holding any number of
//! metadata tables, each under its own name.
//!
//! The adapter lets several migration histories coexist in one schema by
//! configuring distinct metadata table names. This module models that
//! situation — a map from table name to recorded-version set — and
//! proves the two facts the configuration relies on: bootstrap is
//! idempotent, and tables with distinct names keep fully independent
//! histories.

use vstd::prelude::*;

use crate::store::StoreError;
use crate::store::VersionStore;
use crate::store::is_current_version;

verus! {

struct TableEntry {
    name: String,
    store: VersionStore,
}

/// What bootstrap does to the histories of a schema: create the named
/// table empty if it is absent, change nothing if it exists.
pub open spec fn bootstrap_model(m: Map<Seq<char>, Set<i64>>, n: Seq<char>) -> Map<
    Seq<char>,
    Set<i64>,
> {
    if m.dom().contains(n) {
        m
    } else {
        m.insert(n, Set::<i64>::empty())
    }
}

spec fn has_table(ts: Seq<TableEntry>, n: Seq<char>) -> bool {
    exists|i: int| 0 <= i < ts.len() && ts[i].name@ == n
}

spec fn table_set(ts: Seq<TableEntry>, n: Seq<char>) -> Set<i64> {
    ts[choose|i: int| 0 <= i < ts.len() && ts[i].name@ == n].store@
}

spec fn view_of(ts: Seq<TableEntry>) -> Map<Seq<char>, Set<i64>> {
    Map::new(|n: Seq<char>| has_table(ts, n), |n: Seq<char>| table_set(ts, n))
}

spec fn unique_names(ts: Seq<TableEntry>) -> bool {
    forall|i: int, j: int| 0 <= i < j < ts.len() ==> ts[i].name@ != ts[j].name@
}

spec fn stores_wf(ts: Seq<TableEntry>) -> bool {
    forall|i: int| 0 <= i < ts.len() ==> ts[i].store.wf()
}

/// The migration histories of one schema: one recorded-version set per
/// metadata table name.
pub struct SchemaModel {
    tables: Vec<TableEntry>,
}

impl View for SchemaModel {
    type V = Map<Seq<char>, Set<i64>>;

    closed spec fn view(&self) -> Map<Seq<char>, Set<i64>> {
        view_of(self.tables@)
    }
}

impl SchemaModel {
    /// Each table name occurs once, and each table is well-formed.
    pub closed spec fn wf(&self) -> bool {
        unique_names(self.tables@) && stores_wf(self.tables@)
    }

    /// A schema with no metadata table yet.
    pub fn new() -> (s: SchemaModel)
        ensures
            s.wf(),
            s@ == Map::<Seq<char>, Set<i64>>::empty(),
    {
        let s = SchemaModel { tables: Vec::new() };
        proof {
            assert(s@ =~= Map::<Seq<char>, Set<i64>>::empty());
        }
        s
    }

    fn find(&self, name: &String) -> (r: Option<usize>)
        ensures
            match r {
                Some(i) => i < self.tables@.len() && self.tables@[i as int].name@ == name@,
                None => !has_table(self.tables@, name@),
            },
    {
        let n = self.tables.len();
        let mut i: usize = 0;
        while i < n
            invariant
                n == self.tables@.len(),
                0 <= i <= n,
                forall|j: int| 0 <= j < i ==> self.tables@[j].name@ != name@,
            decreases n - i,
        {
            if self.tables[i].name == *name {
                return Some(i);
            }
            i += 1;
        }
        None
    }

    /// Bootstrap the named table: create it empty if it is absent, do
    /// nothing if it exists. It never fails, however often it is called.
    pub fn setup_table(&mut self, name: &String)
        requires
            old(self).wf(),
        ensures
            final(self).wf(),
            final(self)@ == bootstrap_model(old(self)@, name@),
            final(self)@.dom().contains(name@),
    {
        match self.find(name) {
            Some(_) => {
                proof {
                    assert(has_table(self.tables@, name@));
                }
            },
            None => {
                let ghost os = self.tables@;
                let entry = TableEntry { name: name.clone(), store: VersionStore::new() };
                self.tables.push(entry);
                proof {
                    lemma_add_entry(os, self.tables@[os.len() as int], self.tables@);
                }
            },
        }
    }

    /// Record version `v` in the named table. An absent table is a
    /// storage-level failure, surfaced; an already-recorded version
    /// fails on the primary key; either failure leaves every history
    /// unchanged.
    pub fn record_version(&mut self, name: &String, v: i64) -> (r: Result<(), StoreError>)
        requires
            old(self).wf(),
        ensures
            final(self).wf(),
            !old(self)@.dom().contains(name@) ==> r == Result::<(), StoreError>::Err(
                StoreError::MissingTable,
            ) && final(self)@ == old(self)@,
            old(self)@.dom().contains(name@) && old(self)@[name@].contains(v) ==> r
                == Result::<(), StoreError>::Err(StoreError::DuplicateVersion) && final(self)@
                == old(self)@,
            old(self)@.dom().contains(name@) && !old(self)@[name@].contains(v) ==> r is Ok
                && final(self)@ == old(self)@.insert(name@, old(self)@[name@].insert(v)),
    {
        let idx = match self.find(name) {
            Some(i) => i,
            None => {
                return Err(StoreError::MissingTable);
            },
        };
        let ghost os = self.tables@;
        proof {
            lemma_found_index(os, idx as int);
        }
        let mut entry = self.tables.remove(idx);
        let r = entry.store.record(v);
        self.tables.push(entry);
        proof {
            lemma_replace_entry(os, idx as int, self.tables@[os.len() - 1], self.tables@);
            if old(self)@[name@].contains(v) {
                assert(old(self)@.insert(name@, old(self)@[name@]) =~= old(self)@);
            }
        }
        r
    }

    /// Erase version `v` from the named table. An absent table is a
    /// storage-level failure; erasing an absent version is a no-op, and
    /// the result says whether a record was removed.
    pub fn erase_version(&mut self, name: &String, v: i64) -> (r: Result<bool, StoreError>)
        requires
            old(self).wf(),
        ensures
            final(self).wf(),
            !old(self)@.dom().contains(name@) ==> r == Result::<bool, StoreError>::Err(
                StoreError::MissingTable,
            ) && final(self)@ == old(self)@,
            old(self)@.dom().contains(name@) ==> r == Result::<bool, StoreError>::Ok(
                old(self)@[name@].contains(v),
            ) && final(self)@ == old(self)@.insert(name@, old(self)@[name@].remove(v)),
    {
        let idx = match self.find(name) {
            Some(i) => i,
            None => {
                return Err(StoreError::MissingTable);
            },
        };
        let ghost os = self.tables@;
        proof {
            lemma_found_index(os, idx as int);
        }
        let mut entry = self.tables.remove(idx);
        let removed = entry.store.erase(v);
        self.tables.push(entry);
        proof {
            lemma_replace_entry(os, idx as int, self.tables@[os.len() - 1], self.tables@);
        }
        Ok(removed)
    }

    /// Every version the named table records, set semantics: each one
    /// exactly once, no order promised.
    pub fn versions_in(&self, name: &String) -> (r: Result<Vec<i64>, StoreError>)
        requires
            self.wf(),
        ensures
            !self@.dom().contains(name@) ==> r == Result::<Vec<i64>, StoreError>::Err(
                StoreError::MissingTable,
            ),
            self@.dom().contains(name@) ==> (r matches Ok(vs) && vs@.to_set() == self@[name@]
                && vs@.no_duplicates()),
    {
        let idx = match self.find(name) {
            Some(i) => i,
            None => {
                return Err(StoreError::MissingTable);
            },
        };
        proof {
            lemma_found_index(self.tables@, idx as int);
        }
        Ok(self.tables[idx].store.versions())
    }

    /// The current version of the named table's history: its maximum
    /// recorded version, or `None` when that table records nothing.
    pub fn current_version_in(&self, name: &String) -> (r: Result<Option<i64>, StoreError>)
        requires
            self.wf(),
        ensures
            !self@.dom().contains(name@) ==> r == Result::<Option<i64>, StoreError>::Err(
                StoreError::MissingTable,
            ),
            self@.dom().contains(name@) ==> (r matches Ok(c) && is_current_version(
                self@[name@],
                c,
            )),
    {
        let idx = match self.find(name) {
            Some(i) => i,
            None => {
                return Err(StoreError::MissingTable);
            },
        };
        proof {
            lemma_found_index(self.tables@, idx as int);
        }
        Ok(self.tables[idx].store.current())
    }
}

/// An index into a duplicate-free table list is the one its name selects.
proof fn lemma_found_index(ts: Seq<TableEntry>, i: int)
    requires
        unique_names(ts),
        0 <= i < ts.len(),
    ensures
        has_table(ts, ts[i].name@),
        table_set(ts, ts[i].name@) == ts[i].store@,
        view_of(ts).dom().contains(ts[i].name@),
        view_of(ts)[ts[i].name@] == ts[i].store@,
{
    assert(has_table(ts, ts[i].name@));
    let j = choose|j: int| 0 <= j < ts.len() && ts[j].name@ == ts[i].name@;
    if j < i {
        assert(ts[j].name@ != ts[i].name@);
    } else if i < j {
        assert(ts[i].name@ != ts[j].name@);
    }
}

/// Pushing an entry with a fresh name adds exactly its history.
proof fn lemma_add_entry(os: Seq<TableEntry>, e: TableEntry, ns: Seq<TableEntry>)
    requires
        unique_names(os),
        stores_wf(os),
        !has_table(os, e.name@),
        e.store.wf(),
        ns == os.push(e),
    ensures
        unique_names(ns),
        stores_wf(ns),
        view_of(ns) == view_of(os).insert(e.name@, e.store@),
{
    assert forall|i: int, j: int| 0 <= i < j < ns.len() implies ns[i].name@ != ns[j].name@ by {
        if j < os.len() {
            assert(os[i].name@ != os[j].name@);
        } else {
            assert(ns[j] == e);
            assert(ns[i] == os[i]);
            if os[i].name@ == e.name@ {
                assert(has_table(os, e.name@));
            }
        }
    }
    let target = view_of(os).insert(e.name@, e.store@);
    assert forall|k: Seq<char>| #[trigger] view_of(ns).dom().contains(k) implies
        target.dom().contains(k) && view_of(ns)[k] == target[k] by {
        let i1 = choose|i: int| 0 <= i < ns.len() && ns[i].name@ == k;
        if k == e.name@ {
            assert(ns[os.len() as int].name@ == k);
            if i1 < os.len() {
                assert(ns[i1].name@ != ns[os.len() as int].name@);
            }
            assert(view_of(ns)[k] == e.store@);
        } else {
            assert(i1 < os.len());
            assert(os[i1].name@ == k);
            assert(has_table(os, k));
            let i2 = choose|i: int| 0 <= i < os.len() && os[i].name@ == k;
            if i2 < i1 {
                assert(os[i2].name@ != os[i1].name@);
            } else if i1 < i2 {
                assert(os[i1].name@ != os[i2].name@);
            }
            assert(view_of(ns)[k] == table_set(ns, k));
            assert(table_set(ns, k) == ns[i1].store@);
            assert(table_set(os, k) == os[i1].store@);
        }
    }
    assert forall|k: Seq<char>| #[trigger] target.dom().contains(k) implies view_of(
        ns,
    ).dom().contains(k) by {
        if k == e.name@ {
            assert(ns[os.len() as int].name@ == k);
        } else {
            let i2 = choose|i: int| 0 <= i < os.len() && os[i].name@ == k;
            assert(ns[i2].name@ == k);
        }
    }
    assert(view_of(ns) =~= target);
}

/// Replacing the entry at `i` by one with the same name rewrites exactly
/// that name's history.
proof fn lemma_replace_entry(os: Seq<TableEntry>, i: int, e: TableEntry, ns: Seq<TableEntry>)
    requires
        unique_names(os),
        stores_wf(os),
        0 <= i < os.len(),
        e.name@ == os[i].name@,
        e.store.wf(),
        ns == os.remove(i).push(e),
    ensures
        unique_names(ns),
        stores_wf(ns),
        view_of(ns) == view_of(os).insert(e.name@, e.store@),
{
    let mid = os.remove(i);
    assert forall|p: int, q: int| 0 <= p < q < mid.len() implies mid[p].name@ != mid[q].name@ by {
        let p_os: int = if p < i {
            p
        } else {
            p + 1
        };
        let q_os: int = if q < i {
            q
        } else {
            q + 1
        };
        assert(mid[p] == os[p_os]);
        assert(mid[q] == os[q_os]);
        assert(os[p_os].name@ != os[q_os].name@);
    }
    assert forall|p: int| 0 <= p < mid.len() implies mid[p].store.wf() by {
        let p_os: int = if p < i {
            p
        } else {
            p + 1
        };
        assert(mid[p] == os[p_os]);
    }
    assert(!has_table(mid, e.name@)) by {
        if has_table(mid, e.name@) {
            let p = choose|p: int| 0 <= p < mid.len() && mid[p].name@ == e.name@;
            let p_os: int = if p < i {
                p
            } else {
                p + 1
            };
            assert(mid[p] == os[p_os]);
            assert(p_os != i);
            if p_os < i {
                assert(os[p_os].name@ != os[i].name@);
            } else {
                assert(os[i].name@ != os[p_os].name@);
            }
        }
    }
    lemma_add_entry(mid, e, ns);
    let target = view_of(os).insert(e.name@, e.store@);
    assert forall|k: Seq<char>| #[trigger] view_of(mid).insert(e.name@, e.store@).dom().contains(k)
        implies target.dom().contains(k) && view_of(mid).insert(e.name@, e.store@)[k]
        == target[k] by {
        if k != e.name@ {
            let p = choose|p: int| 0 <= p < mid.len() && mid[p].name@ == k;
            let p_os: int = if p < i {
                p
            } else {
                p + 1
            };
            assert(mid[p] == os[p_os]);
            assert(has_table(os, k));
            lemma_found_index(os, p_os);
            assert(table_set(mid, k) == mid[choose|q: int|
                0 <= q < mid.len() && mid[q].name@ == k].store@);
            let q = choose|q: int| 0 <= q < mid.len() && mid[q].name@ == k;
            if q < p {
                assert(mid[q].name@ != mid[p].name@);
            } else if p < q {
                assert(mid[p].name@ != mid[q].name@);
            }
            assert(table_set(mid, k) == os[p_os].store@);
        }
    }
    assert forall|k: Seq<char>| #[trigger] target.dom().contains(k) implies view_of(mid).insert(
        e.name@,
        e.store@,
    ).dom().contains(k) by {
        if k != e.name@ {
            let p_os = choose|p: int| 0 <= p < os.len() && os[p].name@ == k;
            assert(p_os != i);
            let p: int = if p_os < i {
                p_os
            } else {
                p_os - 1
            };
            assert(mid[p] == os[p_os]);
            assert(has_table(mid, k));
        }
    }
    assert(view_of(mid).insert(e.name@, e.store@) =~= target);
}

/// Bootstrap is idempotent: once the metadata table exists, setting the
/// schema up again changes nothing — there is exactly one such table,
/// and no error.
pub proof fn lemma_bootstrap_idempotent(m: Map<Seq<char>, Set<i64>>, n: Seq<char>)
    ensures
        bootstrap_model(bootstrap_model(m, n), n) == bootstrap_model(m, n),
        bootstrap_model(m, n).dom().contains(n),
{
}

/// Histories under distinct table names are fully independent: creating
/// or rewriting the table named `a` leaves the history of `b` exactly as
/// it was.
pub proof fn lemma_independent_histories(
    m: Map<Seq<char>, Set<i64>>,
    a: Seq<char>,
    b: Seq<char>,
    s: Set<i64>,
)
    requires
        a != b,
        m.dom().contains(b),
    ensures
        bootstrap_model(m, a).dom().contains(b),
        bootstrap_model(m, a)[b] == m[b],
        m.insert(a, s).dom().contains(b),
        m.insert(a, s)[b] == m[b],
{
}

} // verus!
