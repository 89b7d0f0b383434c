//! The library's laws: what holds of every request, proved once and
//! for all over the spec-level pipeline.

use crate::auth::spec_authorized;
use crate::bytes::is_prefix_of;
use crate::codec::{dec_i64, lemma_dec_round_trip};
use crate::headers::missing_referer_sentinel;
use crate::pipeline::{cookie_candidate, spec_log_visitor, ConfigView, OutcomeView, SENTINEL_ID};
use crate::store::{
    distinct_ids, distinct_values, has_visitor_id, lemma_max_visitor_id_bounds, max_visitor_id,
    spec_new_visitor, spec_resolve, spec_resolve_visitor, store_wf, StoreView, VisitorRow,
};
use vstd::prelude::*;

verus! {

/// Authorization policy: a request is authorized exactly when some
/// allow-list entry is a literal prefix of the referer; with the
/// missing-referer flag clear, there is no other way in, and with it
/// set, only the missing-referer sentinel is additionally admitted.
pub proof fn lemma_authorization_policy(
    referer: Seq<u8>,
    allowed: Seq<Seq<u8>>,
    save_missing_referer: bool,
)
    ensures
        !save_missing_referer ==> (spec_authorized(referer, allowed, save_missing_referer)
            <==> (exists|i: int|
            0 <= i < allowed.len() && is_prefix_of(#[trigger] allowed[i], referer))),
        referer != missing_referer_sentinel() ==> (spec_authorized(
            referer,
            allowed,
            save_missing_referer,
        ) <==> (exists|i: int|
            0 <= i < allowed.len() && is_prefix_of(#[trigger] allowed[i], referer))),
{
}

/// An unauthorized request terminates with no persistence: the store
/// afterwards is the store before, and nothing is recorded. An
/// authorized request is always recorded.
pub proof fn lemma_rejection_no_persistence(
    s: StoreView,
    c: ConfigView,
    referer: Seq<u8>,
    user_agent: Seq<u8>,
    ip: Seq<u8>,
    cookie: Option<Seq<u8>>,
    now: i64,
)
    ensures
        !spec_authorized(referer, c.allowed_urls, c.save_missing_referer) ==> spec_log_visitor(
            s,
            c,
            referer,
            user_agent,
            ip,
            cookie,
            now,
        ) == (s, OutcomeView::Rejected),
        spec_authorized(referer, c.allowed_urls, c.save_missing_referer) ==> spec_log_visitor(
            s,
            c,
            referer,
            user_agent,
            ip,
            cookie,
            now,
        ).1 is Recorded,
{
}

/// Identity resolution is idempotent: resolving the same value twice
/// returns the same id both times, and the first resolution creates at
/// most one row — the second none at all.
pub proof fn lemma_resolve_idempotent(t: Seq<Seq<u8>>, v: Seq<u8>)
    requires
        distinct_values(t),
    ensures
        spec_resolve(spec_resolve(t, v).0, v).1 == spec_resolve(t, v).1,
        spec_resolve(spec_resolve(t, v).0, v).0 == spec_resolve(t, v).0,
        t.contains(v) ==> spec_resolve(t, v).0 == t,
        !t.contains(v) ==> spec_resolve(t, v).0 == t.push(v),
        distinct_values(spec_resolve(t, v).0),
{
    let t1 = spec_resolve(t, v).0;
    if t.contains(v) {
        let w = t.index_of(v);
        assert(t[w] == v);
    } else {
        assert(t1 == t.push(v));
        assert(t1[t.len() as int] == v);
        assert(forall|j: int| 0 <= j < t.len() ==> t[j] != v);
        assert(forall|j: int| 0 <= j < t.len() ==> t1[j] == t[j]);
        assert(distinct_values(t1));
        assert(t1.contains(v));
        let w = t1.index_of(v);
        assert(t1[w] == v);
        assert(w == t.len() as int);
    }
}

/// Visitor resolution by candidate id is idempotent in the same way.
pub proof fn lemma_resolve_visitor_idempotent(vs: Seq<VisitorRow>, candidate: i64)
    requires
        distinct_ids(vs),
    ensures
        spec_resolve_visitor(spec_resolve_visitor(vs, candidate), candidate)
            == spec_resolve_visitor(vs, candidate),
        has_visitor_id(vs, candidate) ==> spec_resolve_visitor(vs, candidate) == vs,
        !has_visitor_id(vs, candidate) ==> spec_resolve_visitor(vs, candidate) == vs.push(
            VisitorRow { id: candidate, first_visit: None },
        ),
        distinct_ids(spec_resolve_visitor(vs, candidate)),
{
    let vs1 = spec_resolve_visitor(vs, candidate);
    if !has_visitor_id(vs, candidate) {
        assert(vs1[vs.len() as int].id == candidate);
        assert(forall|j: int| 0 <= j < vs.len() ==> (#[trigger] vs[j]).id != candidate);
        assert(forall|j: int| 0 <= j < vs.len() ==> vs1[j] == vs[j]);
        assert(distinct_ids(vs1));
        assert(has_visitor_id(vs1, candidate));
    }
}

/// Disabled capture never touches the user-agent or IP tables and
/// always records the sentinel id for that dimension.
pub proof fn lemma_disabled_capture(
    s: StoreView,
    c: ConfigView,
    referer: Seq<u8>,
    user_agent: Seq<u8>,
    ip: Seq<u8>,
    cookie: Option<Seq<u8>>,
    now: i64,
)
    requires
        spec_authorized(referer, c.allowed_urls, c.save_missing_referer),
    ensures
        !c.save_user_agent ==> spec_log_visitor(s, c, referer, user_agent, ip, cookie, now)
            .0.user_agents == s.user_agents,
        !c.save_user_agent ==> spec_log_visitor(
            s,
            c,
            referer,
            user_agent,
            ip,
            cookie,
            now,
        ).0.visits.last().user_agent_id == SENTINEL_ID,
        !c.save_ip ==> spec_log_visitor(s, c, referer, user_agent, ip, cookie, now).0.ips == s.ips,
        !c.save_ip ==> spec_log_visitor(
            s,
            c,
            referer,
            user_agent,
            ip,
            cookie,
            now,
        ).0.visits.last().ip_id == SENTINEL_ID,
{
}

/// Every authorized request appends exactly one fact row — repeat
/// visits included — and an unauthorized one appends none.
pub proof fn lemma_one_fact_row(
    s: StoreView,
    c: ConfigView,
    referer: Seq<u8>,
    user_agent: Seq<u8>,
    ip: Seq<u8>,
    cookie: Option<Seq<u8>>,
    now: i64,
)
    ensures
        spec_authorized(referer, c.allowed_urls, c.save_missing_referer) ==> spec_log_visitor(
            s,
            c,
            referer,
            user_agent,
            ip,
            cookie,
            now,
        ).0.visits.len() == s.visits.len() + 1,
        spec_authorized(referer, c.allowed_urls, c.save_missing_referer) ==> spec_log_visitor(
            s,
            c,
            referer,
            user_agent,
            ip,
            cookie,
            now,
        ).0.visits.subrange(0, s.visits.len() as int) == s.visits,
        !spec_authorized(referer, c.allowed_urls, c.save_missing_referer) ==> spec_log_visitor(
            s,
            c,
            referer,
            user_agent,
            ip,
            cookie,
            now,
        ).0.visits == s.visits,
{
    if spec_authorized(referer, c.allowed_urls, c.save_missing_referer) {
        let visits2 = spec_log_visitor(s, c, referer, user_agent, ip, cookie, now).0.visits;
        assert(visits2.subrange(0, s.visits.len() as int) =~= s.visits);
    }
}

/// The store only ever grows, row by row: no request removes or
/// rewrites an existing row of any table. In particular a visitor row's
/// `first_visit` stamp never changes after creation, dimension rows live
/// indefinitely, and recorded visits are immutable.
pub proof fn lemma_rows_are_append_only(
    s: StoreView,
    c: ConfigView,
    referer: Seq<u8>,
    user_agent: Seq<u8>,
    ip: Seq<u8>,
    cookie: Option<Seq<u8>>,
    now: i64,
)
    ensures
        ({
            let s2 = spec_log_visitor(s, c, referer, user_agent, ip, cookie, now).0;
            &&& s2.urls.subrange(0, s.urls.len() as int) == s.urls
            &&& s2.visitors.subrange(0, s.visitors.len() as int) == s.visitors
            &&& s2.user_agents.subrange(0, s.user_agents.len() as int) == s.user_agents
            &&& s2.ips.subrange(0, s.ips.len() as int) == s.ips
            &&& s2.visits.subrange(0, s.visits.len() as int) == s.visits
        }),
{
    let s2 = spec_log_visitor(s, c, referer, user_agent, ip, cookie, now).0;
    assert(s2.urls.subrange(0, s.urls.len() as int) =~= s.urls);
    assert(s2.visitors.subrange(0, s.visitors.len() as int) =~= s.visitors);
    assert(s2.user_agents.subrange(0, s.user_agents.len() as int) =~= s.user_agents);
    assert(s2.ips.subrange(0, s.ips.len() as int) =~= s.ips);
    assert(s2.visits.subrange(0, s.visits.len() as int) =~= s.visits);
}

/// The pipeline preserves the store's uniqueness invariants.
pub proof fn lemma_pipeline_preserves_wf(
    s: StoreView,
    c: ConfigView,
    referer: Seq<u8>,
    user_agent: Seq<u8>,
    ip: Seq<u8>,
    cookie: Option<Seq<u8>>,
    now: i64,
)
    requires
        store_wf(s),
        max_visitor_id(s.visitors) < i64::MAX,
    ensures
        store_wf(spec_log_visitor(s, c, referer, user_agent, ip, cookie, now).0),
        (spec_log_visitor(s, c, referer, user_agent, ip, cookie, now).1 matches
            OutcomeView::Recorded { visitor_id, .. } ==> has_visitor_id(
            spec_log_visitor(s, c, referer, user_agent, ip, cookie, now).0.visitors,
            visitor_id,
        )),
{
    lemma_resolve_idempotent(s.urls, referer);
    lemma_resolve_idempotent(s.user_agents, user_agent);
    lemma_resolve_idempotent(s.ips, ip);
    match cookie {
        Some(cv) => {
            lemma_resolve_visitor_idempotent(s.visitors, cookie_candidate(cv));
            let vs1 = spec_resolve_visitor(s.visitors, cookie_candidate(cv));
            if !has_visitor_id(s.visitors, cookie_candidate(cv)) {
                assert(vs1[vs1.len() - 1].id == cookie_candidate(cv));
            }
            assert(has_visitor_id(vs1, cookie_candidate(cv)));
        },
        None => {
            lemma_new_visitor_wf(s.visitors, now);
        },
    }
}

/// A freshly minted visitor keeps ids unique, and its id is in the
/// table afterwards.
pub proof fn lemma_new_visitor_wf(vs: Seq<VisitorRow>, now: i64)
    requires
        distinct_ids(vs),
        max_visitor_id(vs) < i64::MAX,
    ensures
        distinct_ids(spec_new_visitor(vs, now).0),
        has_visitor_id(spec_new_visitor(vs, now).0, spec_new_visitor(vs, now).1 as i64),
        spec_new_visitor(vs, now).1 == max_visitor_id(vs) + 1,
{
    lemma_max_visitor_id_bounds(vs);
    let id = max_visitor_id(vs) + 1;
    let vs1 = spec_new_visitor(vs, now).0;
    assert(vs1[vs.len() as int].id == id as i64);
    assert(forall|j: int| 0 <= j < vs.len() ==> vs1[j] == vs[j]);
    assert(distinct_ids(vs1));
}

/// Cookie round trip: the cookie value a recorded request sends back,
/// fed in as the cookie of the next request, resolves to the same
/// visitor id, and creates no new visitor row.
pub proof fn lemma_cookie_round_trip(
    s: StoreView,
    c: ConfigView,
    referer1: Seq<u8>,
    user_agent1: Seq<u8>,
    ip1: Seq<u8>,
    cookie1: Option<Seq<u8>>,
    now1: i64,
    referer2: Seq<u8>,
    user_agent2: Seq<u8>,
    ip2: Seq<u8>,
    now2: i64,
)
    requires
        store_wf(s),
        max_visitor_id(s.visitors) < i64::MAX,
    ensures
        ({
            let (s1, o1) = spec_log_visitor(s, c, referer1, user_agent1, ip1, cookie1, now1);
            o1 matches OutcomeView::Recorded { visitor_id: vid1, cookie_value: cv1 } ==> {
                let (s2, o2) = spec_log_visitor(s1, c, referer2, user_agent2, ip2, Some(cv1), now2);
                &&& (o2 matches OutcomeView::Recorded { visitor_id: vid2, .. } ==> vid2 == vid1)
                &&& (spec_authorized(referer2, c.allowed_urls, c.save_missing_referer)
                    ==> o2 is Recorded && s2.visitors == s1.visitors)
            }
        }),
{
    let (s1, o1) = spec_log_visitor(s, c, referer1, user_agent1, ip1, cookie1, now1);
    if o1 is Recorded {
        let vid1 = o1->Recorded_visitor_id;
        let cv1 = o1->Recorded_cookie_value;
        assert(cv1 == dec_i64(vid1 as int));
        lemma_dec_round_trip(vid1);
        assert(cookie_candidate(cv1) == vid1);
        lemma_pipeline_preserves_wf(s, c, referer1, user_agent1, ip1, cookie1, now1);
        assert(has_visitor_id(s1.visitors, vid1));
        if spec_authorized(referer2, c.allowed_urls, c.save_missing_referer) {
            assert(spec_resolve_visitor(s1.visitors, vid1) == s1.visitors);
        }
    }
}

} // verus!
