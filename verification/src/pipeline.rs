//! The visit-recording pipeline.
//!
//! One call records one page view: the effective referer is checked
//! against the allow-list; on rejection nothing is persisted. On an
//! authorized request the referring URL, the visitor, the user agent and
//! the client IP are each resolved to a stable id — the latter two only
//! when their capture flag is set, with the sentinel id 1 substituted
//! otherwise — and exactly one fact row referencing the four ids is
//! appended. The visitor id to send back in the long-lived cookie is
//! part of the outcome.

use crate::auth::{is_authorized, spec_authorized};
use crate::bytes::views_of;
use crate::codec::{dec_i64, i64_to_dec, parse_i64, spec_parse_i64};
use crate::headers::ExtractedHeaders;
use crate::store::{
    spec_new_visitor, spec_resolve, spec_resolve_visitor, store_room, store_wf, Store, StoreView,
    VisitRow,
};
use vstd::prelude::*;

verus! {

/// The sentinel id substituted for a dimension whose capture is
/// disabled: the pre-seeded "unknown" row.
pub const SENTINEL_ID: i64 = 1;

/// The core's configuration: the authorization allow-list and the
/// capture flags.
pub struct Config {
    /// Non-empty list of URL prefixes; a referer starting with any of
    /// them is authorized.
    pub allowed_urls: Vec<Vec<u8>>,
    /// Record the caller's IP address instead of the sentinel.
    pub save_ip: bool,
    /// Record the caller's user agent instead of the sentinel.
    pub save_user_agent: bool,
    /// Record visits whose referer header is missing instead of
    /// rejecting them.
    pub save_missing_referer: bool,
}

/// Spec-level image of a `Config`.
pub struct ConfigView {
    pub allowed_urls: Seq<Seq<u8>>,
    pub save_ip: bool,
    pub save_user_agent: bool,
    pub save_missing_referer: bool,
}

impl View for Config {
    type V = ConfigView;

    open spec fn view(&self) -> ConfigView {
        ConfigView {
            allowed_urls: views_of(self.allowed_urls@),
            save_ip: self.save_ip,
            save_user_agent: self.save_user_agent,
            save_missing_referer: self.save_missing_referer,
        }
    }
}

/// How one request ends: rejected with no persistence, or recorded,
/// carrying the resolved visitor id and the cookie value to send back.
#[derive(Debug, PartialEq, Eq)]
pub enum Outcome {
    Rejected,
    Recorded { visitor_id: i64, cookie_value: Vec<u8> },
}

/// Spec-level image of an `Outcome`.
pub enum OutcomeView {
    Rejected,
    Recorded { visitor_id: i64, cookie_value: Seq<u8> },
}

impl View for Outcome {
    type V = OutcomeView;

    open spec fn view(&self) -> OutcomeView {
        match self {
            Outcome::Rejected => OutcomeView::Rejected,
            Outcome::Recorded { visitor_id, cookie_value } => OutcomeView::Recorded {
                visitor_id: *visitor_id,
                cookie_value: cookie_value@,
            },
        }
    }
}

impl Outcome {
    /// The HTTP status this outcome answers with: storage failures are
    /// never surfaced, so a recorded visit is the only success.
    pub fn status_code(&self) -> (code: u16)
        ensures
            code == (match self {
                Outcome::Rejected => 401u16,
                Outcome::Recorded { .. } => 200u16,
            }),
    {
        match self {
            Outcome::Rejected => 401,
            Outcome::Recorded { .. } => 200,
        }
    }
}

/// The bytes of `"visitor_id"`, the name of the tracking cookie in both
/// directions: read from the request, set on the response.
pub open spec fn cookie_name() -> Seq<u8> {
    seq![118u8, 105, 115, 105, 116, 111, 114, 95, 105, 100]
}

/// `"visitor_id"` as a byte string.
pub fn cookie_name_bytes() -> (v: Vec<u8>)
    ensures
        v@ == cookie_name(),
{
    let v: Vec<u8> = vec![118u8, 105, 115, 105, 116, 111, 114, 95, 105, 100];
    proof {
        assert(v@ =~= cookie_name());
    }
    v
}

/// The response cookie that carries the visitor id onward, as plain
/// values: it lives 365 days, travels only over secure transport, and
/// cross-site delivery is permitted, so the tracking script embedded on
/// third-party pages can send it back.
pub struct VisitorCookie {
    pub name: Vec<u8>,
    pub value: Vec<u8>,
    pub max_age_seconds: i64,
    pub secure: bool,
    pub cross_site: bool,
}

impl VisitorCookie {
    /// The cookie a recorded visit answers with.
    pub fn for_visitor(visitor_id: i64) -> (c: VisitorCookie)
        ensures
            c.name@ == cookie_name(),
            c.value@ == dec_i64(visitor_id as int),
            c.max_age_seconds == 365 * 24 * 60 * 60,
            c.secure,
            c.cross_site,
    {
        VisitorCookie {
            name: cookie_name_bytes(),
            value: i64_to_dec(visitor_id),
            max_age_seconds: 365 * 24 * 60 * 60,
            secure: true,
            cross_site: true,
        }
    }
}

/// The visitor id a cookie value stands for: the integer it spells, or
/// the fixed fallback id 1 when it does not parse.
pub open spec fn cookie_candidate(c: Seq<u8>) -> i64 {
    match spec_parse_i64(c) {
        Some(v) => v,
        None => SENTINEL_ID,
    }
}

/// The view of an optional cookie value.
pub open spec fn opt_bytes_view(c: Option<Vec<u8>>) -> Option<Seq<u8>> {
    match c {
        Some(v) => Some(v@),
        None => None,
    }
}

/// The whole pipeline as one step: the store afterwards, and the
/// outcome. An unauthorized request leaves the store untouched; an
/// authorized one resolves its four dimension ids and appends exactly
/// one fact row.
pub open spec fn spec_log_visitor(
    s: StoreView,
    c: ConfigView,
    referer: Seq<u8>,
    user_agent: Seq<u8>,
    ip: Seq<u8>,
    cookie: Option<Seq<u8>>,
    now: i64,
) -> (StoreView, OutcomeView) {
    if !spec_authorized(referer, c.allowed_urls, c.save_missing_referer) {
        (s, OutcomeView::Rejected)
    } else {
        let url_id = spec_resolve(s.urls, referer).1;
        let urls2 = spec_resolve(s.urls, referer).0;
        let visitor_id = (match cookie {
            Some(cv) => cookie_candidate(cv) as int,
            None => spec_new_visitor(s.visitors, now).1,
        });
        let visitors2 = (match cookie {
            Some(cv) => spec_resolve_visitor(s.visitors, cookie_candidate(cv)),
            None => spec_new_visitor(s.visitors, now).0,
        });
        let user_agent_id = if c.save_user_agent {
            spec_resolve(s.user_agents, user_agent).1
        } else {
            SENTINEL_ID as int
        };
        let user_agents2 = if c.save_user_agent {
            spec_resolve(s.user_agents, user_agent).0
        } else {
            s.user_agents
        };
        let ip_id = if c.save_ip {
            spec_resolve(s.ips, ip).1
        } else {
            SENTINEL_ID as int
        };
        let ips2 = if c.save_ip {
            spec_resolve(s.ips, ip).0
        } else {
            s.ips
        };
        let row = VisitRow {
            url_id: url_id as i64,
            visitor_id: visitor_id as i64,
            user_agent_id: user_agent_id as i64,
            ip_id: ip_id as i64,
        };
        (
            StoreView {
                urls: urls2,
                visitors: visitors2,
                user_agents: user_agents2,
                ips: ips2,
                visits: s.visits.push(row),
            },
            OutcomeView::Recorded {
                visitor_id: visitor_id as i64,
                cookie_value: dec_i64(visitor_id as i64 as int),
            },
        )
    }
}

/// Records one page view against the store, exactly as
/// `spec_log_visitor` says: authorization first, then the four dimension
/// resolutions (user agent and IP only when their flag is set), then one
/// appended fact row, and the visitor id echoed as the cookie value.
pub fn log_visitor(
    store: &mut Store,
    config: &Config,
    headers: &ExtractedHeaders,
    ip: &Vec<u8>,
    cookie: &Option<Vec<u8>>,
    now: i64,
) -> (o: Outcome)
    requires
        old(store).wf(),
        store_room(old(store)@),
    ensures
        final(store).wf(),
        final(store)@ == spec_log_visitor(
            old(store)@,
            config@,
            headers.referer@,
            headers.user_agent@,
            ip@,
            opt_bytes_view(*cookie),
            now,
        ).0,
        o@ == spec_log_visitor(
            old(store)@,
            config@,
            headers.referer@,
            headers.user_agent@,
            ip@,
            opt_bytes_view(*cookie),
            now,
        ).1,
{
    if !is_authorized(&headers.referer, &config.allowed_urls, config.save_missing_referer) {
        return Outcome::Rejected;
    }
    let url_id: i64 = store.urls.resolve_or_create(clone_bytes(&headers.referer));
    let visitor_id: i64 = match cookie {
        Some(cv) => {
            let candidate: i64 = match parse_i64(cv) {
                Some(v) => v,
                None => SENTINEL_ID,
            };
            store.visitors.resolve_id(candidate)
        },
        None => store.visitors.new_visitor(now),
    };
    let cookie_value: Vec<u8> = i64_to_dec(visitor_id);
    let user_agent_id: i64 = if config.save_user_agent {
        store.user_agents.resolve_or_create(clone_bytes(&headers.user_agent))
    } else {
        SENTINEL_ID
    };
    let ip_id: i64 = if config.save_ip {
        store.ips.resolve_or_create(clone_bytes(ip))
    } else {
        SENTINEL_ID
    };
    store.record_visit(VisitRow { url_id, visitor_id, user_agent_id, ip_id });
    Outcome::Recorded { visitor_id, cookie_value }
}

/// A copy of a byte string, byte for byte.
fn clone_bytes(v: &Vec<u8>) -> (r: Vec<u8>)
    ensures
        r@ == v@,
{
    let mut r: Vec<u8> = Vec::new();
    let mut i: usize = 0;
    while i < v.len()
        invariant
            i <= v@.len(),
            r@ =~= v@.subrange(0, i as int),
        decreases v@.len() - i,
    {
        r.push(v[i]);
        i += 1;
        proof {
            assert(r@ =~= v@.subrange(0, i as int));
        }
    }
    proof {
        assert(r@ =~= v@);
    }
    r
}

} // verus!
