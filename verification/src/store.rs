//! The transactional store, modeled.
//!
//! The store owns all persisted state: three dimension tables that
//! deduplicate observed byte strings (referring URL, user agent, client
//! IP), a visitor table keyed by assigned id, and an append-only fact
//! table of visits. Ids are one-based row positions for the dimension
//! tables, and assigned integers for visitors; every table is pre-seeded
//! with a sentinel row of id 1 that stands for "unknown / not captured".
//!
//! Each mutating operation here corresponds to one atomic statement of
//! the relational store ("insert if new, else return the existing row's
//! id"), so the idempotence proved of these operations is what shields
//! concurrent requests for the same new value from creating two rows.

use vstd::prelude::*;
use crate::bytes::{bytes_eq, views_of};

verus! {

/// No two rows of a dimension table hold the same value.
pub open spec fn distinct_values(t: Seq<Seq<u8>>) -> bool {
    forall|i: int, j: int| 0 <= i < j < t.len() ==> t[i] != t[j]
}

/// Insert-or-fetch on a dimension table, as one step: the table with the
/// value present exactly once, and the one-based id of its row.
pub open spec fn spec_resolve(t: Seq<Seq<u8>>, v: Seq<u8>) -> (Seq<Seq<u8>>, int) {
    if t.contains(v) {
        (t, t.index_of(v) + 1)
    } else {
        (t.push(v), t.len() as int + 1)
    }
}

/// A deduplicated lookup table mapping a byte string to a stable
/// one-based integer id (the row's position).
pub struct DimensionTable {
    pub rows: Vec<Vec<u8>>,
}

impl View for DimensionTable {
    type V = Seq<Seq<u8>>;

    open spec fn view(&self) -> Seq<Seq<u8>> {
        views_of(self.rows@)
    }
}

impl DimensionTable {
    /// At most one row per distinct value.
    pub open spec fn wf(&self) -> bool {
        distinct_values(self@)
    }

    /// A fresh table, pre-seeded with the sentinel row of id 1.
    pub fn new(sentinel: Vec<u8>) -> (t: DimensionTable)
        ensures
            t.wf(),
            t@ =~= seq![sentinel@],
    {
        let ghost s = sentinel@;
        let mut rows: Vec<Vec<u8>> = Vec::new();
        rows.push(sentinel);
        let t = DimensionTable { rows };
        proof {
            assert(t@ =~= seq![s]);
        }
        t
    }

    /// Resolve-or-create: insert the value if it is new, else leave the
    /// table unchanged; either way return the id of the value's row.
    #[verifier::loop_isolation(false)]
    pub fn resolve_or_create(&mut self, value: Vec<u8>) -> (id: i64)
        requires
            old(self).wf(),
            old(self)@.len() < i64::MAX,
        ensures
            final(self).wf(),
            final(self)@ == spec_resolve(old(self)@, value@).0,
            id as int == spec_resolve(old(self)@, value@).1,
            1 <= id <= final(self)@.len(),
            final(self)@[id - 1] == value@,
    {
        let n: usize = self.rows.len();
        let ghost t0 = self@;
        let mut i: usize = 0;
        while i < n
            invariant
                i <= n,
                forall|j: int| 0 <= j < i ==> self@[j] != value@,
            decreases n - i,
        {
            if bytes_eq(&self.rows[i], &value) {
                proof {
                    assert(self@[i as int] == value@);
                    assert(t0.contains(value@));
                    let w = t0.index_of(value@);
                    assert(t0[w] == value@);
                    assert(w == i as int);
                }
                return (i + 1) as i64;
            }
            i += 1;
        }
        proof {
            assert(forall|j: int| 0 <= j < t0.len() ==> t0[j] != value@);
            assert(!t0.contains(value@));
        }
        let ghost v = value@;
        self.rows.push(value);
        proof {
            assert(self@ =~= t0.push(v));
            assert(forall|j: int| 0 <= j < t0.len() ==> self@[j] != v);
            assert(self.wf());
        }
        self.rows.len() as i64
    }
}

/// One visitor: an assigned id, and the time of first contact for rows
/// created fresh (rows materialized from a cookie-supplied id carry
/// none).
#[derive(Clone, Copy, Debug)]
pub struct VisitorRow {
    pub id: i64,
    pub first_visit: Option<i64>,
}

/// Some row of the visitor table has this id.
pub open spec fn has_visitor_id(vs: Seq<VisitorRow>, id: i64) -> bool {
    exists|i: int| 0 <= i < vs.len() && (#[trigger] vs[i]).id == id
}

/// No two visitor rows share an id.
pub open spec fn distinct_ids(vs: Seq<VisitorRow>) -> bool {
    forall|i: int, j: int| 0 <= i < j < vs.len() ==> vs[i].id != vs[j].id
}

/// The largest id in use, and never below zero.
pub open spec fn max_visitor_id(vs: Seq<VisitorRow>) -> int
    decreases vs.len(),
{
    if vs.len() == 0 {
        0
    } else {
        let m = max_visitor_id(vs.drop_last());
        if vs.last().id > m {
            vs.last().id as int
        } else {
            m
        }
    }
}

/// Insert-or-ignore of a candidate id: the table afterwards, holding a
/// row with that id exactly once.
pub open spec fn spec_resolve_visitor(vs: Seq<VisitorRow>, candidate: i64) -> Seq<VisitorRow> {
    if has_visitor_id(vs, candidate) {
        vs
    } else {
        vs.push(VisitorRow { id: candidate, first_visit: None })
    }
}

/// A fresh visitor row stamped `now`, under the next free id: the table
/// afterwards and the assigned id.
pub open spec fn spec_new_visitor(vs: Seq<VisitorRow>, now: i64) -> (Seq<VisitorRow>, int) {
    let id = max_visitor_id(vs) + 1;
    (vs.push(VisitorRow { id: id as i64, first_visit: Some(now) }), id)
}

/// The table of visitors, keyed by assigned id.
pub struct VisitorTable {
    pub rows: Vec<VisitorRow>,
}

impl View for VisitorTable {
    type V = Seq<VisitorRow>;

    open spec fn view(&self) -> Seq<VisitorRow> {
        self.rows@
    }
}

impl VisitorTable {
    pub open spec fn wf(&self) -> bool {
        distinct_ids(self@)
    }

    /// A fresh table, pre-seeded with the fallback row of id 1.
    pub fn new() -> (t: VisitorTable)
        ensures
            t.wf(),
            t@ =~= seq![VisitorRow { id: 1i64, first_visit: None }],
    {
        let mut rows: Vec<VisitorRow> = Vec::new();
        rows.push(VisitorRow { id: 1, first_visit: None });
        VisitorTable { rows }
    }

    /// Insert-or-ignore on a candidate id taken from a cookie: create
    /// the row if the id is unknown, and return the candidate as the
    /// resolved id either way.
    #[verifier::loop_isolation(false)]
    pub fn resolve_id(&mut self, candidate: i64) -> (id: i64)
        requires
            old(self).wf(),
        ensures
            final(self).wf(),
            id == candidate,
            final(self)@ == spec_resolve_visitor(old(self)@, candidate),
            has_visitor_id(final(self)@, candidate),
    {
        let n: usize = self.rows.len();
        let mut i: usize = 0;
        while i < n
            invariant
                i <= n,
                forall|j: int| 0 <= j < i ==> (#[trigger] self@[j]).id != candidate,
            decreases n - i,
        {
            if self.rows[i].id == candidate {
                proof {
                    assert(has_visitor_id(self@, candidate));
                }
                return candidate;
            }
            i += 1;
        }
        proof {
            assert(!has_visitor_id(self@, candidate));
        }
        self.rows.push(VisitorRow { id: candidate, first_visit: None });
        proof {
            assert(self@[self@.len() - 1].id == candidate);
        }
        candidate
    }

    /// Creates a brand-new visitor row stamped with the current time,
    /// under an id one past the largest in use.
    #[verifier::loop_isolation(false)]
    pub fn new_visitor(&mut self, now: i64) -> (id: i64)
        requires
            old(self).wf(),
            max_visitor_id(old(self)@) < i64::MAX,
        ensures
            final(self).wf(),
            final(self)@ == spec_new_visitor(old(self)@, now).0,
            id as int == spec_new_visitor(old(self)@, now).1,
            has_visitor_id(final(self)@, id),
            final(self)@.last() == (VisitorRow { id, first_visit: Some(now) }),
    {
        let n: usize = self.rows.len();
        let mut m: i64 = 0;
        let mut i: usize = 0;
        proof {
            assert(self@.subrange(0, 0) =~= Seq::<VisitorRow>::empty());
            lemma_max_visitor_id_bounds(self@);
        }
        while i < n
            invariant
                i <= n,
                m as int == max_visitor_id(self@.subrange(0, i as int)),
                m as int <= max_visitor_id(self@),
            decreases n - i,
        {
            proof {
                let pre = self@.subrange(0, i as int);
                let ext = self@.subrange(0, i + 1);
                assert(ext.drop_last() =~= pre);
                assert(ext.last() == self@[i as int]);
                assert(max_visitor_id(ext) == if self@[i as int].id > max_visitor_id(pre) {
                    self@[i as int].id as int
                } else {
                    max_visitor_id(pre)
                });
                lemma_max_visitor_id_prefix(self@, i + 1);
            }
            if self.rows[i].id > m {
                m = self.rows[i].id;
            }
            i += 1;
        }
        proof {
            assert(self@.subrange(0, n as int) =~= self@);
        }
        let id: i64 = m + 1;
        proof {
            lemma_max_visitor_id_bounds(self@);
            assert(!has_visitor_id(self@, id));
        }
        self.rows.push(VisitorRow { id, first_visit: Some(now) });
        proof {
            assert(self@[self@.len() - 1].id == id);
            assert(distinct_ids(self@));
        }
        id
    }
}

/// The largest id over a prefix never exceeds the largest overall.
proof fn lemma_max_visitor_id_prefix(vs: Seq<VisitorRow>, k: int)
    requires
        0 <= k <= vs.len(),
    ensures
        max_visitor_id(vs.subrange(0, k)) <= max_visitor_id(vs),
    decreases vs.len() - k,
{
    if k == vs.len() {
        assert(vs.subrange(0, k) =~= vs);
    } else {
        lemma_max_visitor_id_prefix(vs.drop_last(), k);
        assert(vs.drop_last().subrange(0, k) =~= vs.subrange(0, k));
    }
}

/// Every id in the table is at most the largest, which is never
/// negative.
pub proof fn lemma_max_visitor_id_bounds(vs: Seq<VisitorRow>)
    ensures
        forall|i: int| 0 <= i < vs.len() ==> (#[trigger] vs[i]).id <= max_visitor_id(vs),
        max_visitor_id(vs) >= 0,
    decreases vs.len(),
{
    if vs.len() > 0 {
        lemma_max_visitor_id_bounds(vs.drop_last());
        assert(forall|i: int| 0 <= i < vs.len() - 1 ==> vs.drop_last()[i] == vs[i]);
    }
}

/// One recorded visit: the four resolved dimension ids.
#[derive(Clone, Copy, Debug, PartialEq, Eq, Structural)]
pub struct VisitRow {
    pub url_id: i64,
    pub visitor_id: i64,
    pub user_agent_id: i64,
    pub ip_id: i64,
}

/// The store's whole state, at the spec level.
pub struct StoreView {
    pub urls: Seq<Seq<u8>>,
    pub visitors: Seq<VisitorRow>,
    pub user_agents: Seq<Seq<u8>>,
    pub ips: Seq<Seq<u8>>,
    pub visits: Seq<VisitRow>,
}

/// Uniqueness across the store: each dimension table deduplicates its
/// values, and visitor ids are unique.
pub open spec fn store_wf(s: StoreView) -> bool {
    &&& distinct_values(s.urls)
    &&& distinct_ids(s.visitors)
    &&& distinct_values(s.user_agents)
    &&& distinct_values(s.ips)
}

/// Room for one more row everywhere: ids stay within `i64`.
pub open spec fn store_room(s: StoreView) -> bool {
    &&& s.urls.len() < i64::MAX
    &&& max_visitor_id(s.visitors) < i64::MAX
    &&& s.user_agents.len() < i64::MAX
    &&& s.ips.len() < i64::MAX
}

/// The shared store: three dimension tables, the visitor table, and the
/// append-only fact table.
pub struct Store {
    pub urls: DimensionTable,
    pub visitors: VisitorTable,
    pub user_agents: DimensionTable,
    pub ips: DimensionTable,
    pub visits: Vec<VisitRow>,
}

impl View for Store {
    type V = StoreView;

    open spec fn view(&self) -> StoreView {
        StoreView {
            urls: self.urls@,
            visitors: self.visitors@,
            user_agents: self.user_agents@,
            ips: self.ips@,
            visits: self.visits@,
        }
    }
}

impl Store {
    pub open spec fn wf(&self) -> bool {
        store_wf(self@)
    }

    /// A freshly bootstrapped store: every table pre-seeded with its
    /// "unknown" row of id 1, and no visits.
    pub fn new(url_sentinel: Vec<u8>, user_agent_sentinel: Vec<u8>, ip_sentinel: Vec<u8>) -> (s:
        Store)
        ensures
            s.wf(),
            store_room(s@),
            max_visitor_id(s@.visitors) == 1,
            s@.urls =~= seq![url_sentinel@],
            s@.visitors =~= seq![VisitorRow { id: 1i64, first_visit: None }],
            s@.user_agents =~= seq![user_agent_sentinel@],
            s@.ips =~= seq![ip_sentinel@],
            s@.visits =~= Seq::<VisitRow>::empty(),
    {
        let s = Store {
            urls: DimensionTable::new(url_sentinel),
            visitors: VisitorTable::new(),
            user_agents: DimensionTable::new(user_agent_sentinel),
            ips: DimensionTable::new(ip_sentinel),
            visits: Vec::new(),
        };
        proof {
            assert(s@.visitors.drop_last() =~= Seq::<VisitorRow>::empty());
            assert(max_visitor_id(Seq::<VisitorRow>::empty()) == 0);
            assert(max_visitor_id(s@.visitors) == 1);
        }
        s
    }

    /// Appends one immutable fact row. Repeat visits are legitimate:
    /// this never deduplicates.
    pub fn record_visit(&mut self, row: VisitRow)
        ensures
            final(self)@.visits == old(self)@.visits.push(row),
            final(self)@.urls == old(self)@.urls,
            final(self)@.visitors == old(self)@.visitors,
            final(self)@.user_agents == old(self)@.user_agents,
            final(self)@.ips == old(self)@.ips,
            final(self).wf() == old(self).wf(),
    {
        self.visits.push(row);
    }
}

} // verus!
