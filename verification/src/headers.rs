//! Request headers as the pipeline sees them.
//!
//! An inbound request carries a `Referer` and a `User-Agent` header, each
//! of which may be absent or not valid text. The pipeline never sees that
//! distinction as such: each header is collapsed to an effective byte
//! string, substituting a fixed sentinel string when the header is absent
//! or invalid, and everything downstream (the allow-list check and the
//! dimension tables) works on the effective string.

use vstd::prelude::*;

verus! {

/// A header as it arrived: absent, present but not valid text, or its
/// bytes.
pub enum RawHeader {
    Missing,
    Invalid,
    Present(Vec<u8>),
}

/// Spec-level image of a `RawHeader`.
pub enum RawHeaderView {
    Missing,
    Invalid,
    Present(Seq<u8>),
}

impl View for RawHeader {
    type V = RawHeaderView;

    open spec fn view(&self) -> RawHeaderView {
        match self {
            RawHeader::Missing => RawHeaderView::Missing,
            RawHeader::Invalid => RawHeaderView::Invalid,
            RawHeader::Present(v) => RawHeaderView::Present(v@),
        }
    }
}

/// The bytes of `"MISSING_REFERER_HEADER"`.
pub open spec fn missing_referer_sentinel() -> Seq<u8> {
    seq![77u8, 73, 83, 83, 73, 78, 71, 95, 82, 69, 70, 69, 82, 69, 82, 95, 72, 69, 65, 68, 69, 82]
}

/// The bytes of `"INVALID_REFERER_HEADER"`.
pub open spec fn invalid_referer_sentinel() -> Seq<u8> {
    seq![73u8, 78, 86, 65, 76, 73, 68, 95, 82, 69, 70, 69, 82, 69, 82, 95, 72, 69, 65, 68, 69, 82]
}

/// The bytes of `"MISSING_USER_AGENT_HEADER"`.
pub open spec fn missing_user_agent_sentinel() -> Seq<u8> {
    seq![77u8, 73, 83, 83, 73, 78, 71, 95, 85, 83, 69, 82, 95, 65, 71, 69, 78, 84, 95, 72, 69, 65,
        68, 69, 82]
}

/// The bytes of `"INVALID_USER_AGENT_HEADER"`.
pub open spec fn invalid_user_agent_sentinel() -> Seq<u8> {
    seq![73u8, 78, 86, 65, 76, 73, 68, 95, 85, 83, 69, 82, 95, 65, 71, 69, 78, 84, 95, 72, 69, 65,
        68, 69, 82]
}

/// The effective referer string: the header's bytes, or a sentinel.
pub open spec fn effective_referer(h: RawHeaderView) -> Seq<u8> {
    match h {
        RawHeaderView::Missing => missing_referer_sentinel(),
        RawHeaderView::Invalid => invalid_referer_sentinel(),
        RawHeaderView::Present(v) => v,
    }
}

/// The effective user-agent string: the header's bytes, or a sentinel.
pub open spec fn effective_user_agent(h: RawHeaderView) -> Seq<u8> {
    match h {
        RawHeaderView::Missing => missing_user_agent_sentinel(),
        RawHeaderView::Invalid => invalid_user_agent_sentinel(),
        RawHeaderView::Present(v) => v,
    }
}

/// `"MISSING_REFERER_HEADER"` as a byte string.
pub fn missing_referer_bytes() -> (v: Vec<u8>)
    ensures
        v@ == missing_referer_sentinel(),
{
    let v: Vec<u8> = vec![77u8, 73, 83, 83, 73, 78, 71, 95, 82, 69, 70, 69, 82, 69, 82, 95, 72, 69,
        65, 68, 69, 82];
    proof {
        assert(v@ =~= missing_referer_sentinel());
    }
    v
}

/// `"INVALID_REFERER_HEADER"` as a byte string.
pub fn invalid_referer_bytes() -> (v: Vec<u8>)
    ensures
        v@ == invalid_referer_sentinel(),
{
    let v: Vec<u8> = vec![73u8, 78, 86, 65, 76, 73, 68, 95, 82, 69, 70, 69, 82, 69, 82, 95, 72, 69,
        65, 68, 69, 82];
    proof {
        assert(v@ =~= invalid_referer_sentinel());
    }
    v
}

/// `"MISSING_USER_AGENT_HEADER"` as a byte string.
pub fn missing_user_agent_bytes() -> (v: Vec<u8>)
    ensures
        v@ == missing_user_agent_sentinel(),
{
    let v: Vec<u8> = vec![77u8, 73, 83, 83, 73, 78, 71, 95, 85, 83, 69, 82, 95, 65, 71, 69, 78, 84,
        95, 72, 69, 65, 68, 69, 82];
    proof {
        assert(v@ =~= missing_user_agent_sentinel());
    }
    v
}

/// `"INVALID_USER_AGENT_HEADER"` as a byte string.
pub fn invalid_user_agent_bytes() -> (v: Vec<u8>)
    ensures
        v@ == invalid_user_agent_sentinel(),
{
    let v: Vec<u8> = vec![73u8, 78, 86, 65, 76, 73, 68, 95, 85, 83, 69, 82, 95, 65, 71, 69, 78, 84,
        95, 72, 69, 65, 68, 69, 82];
    proof {
        assert(v@ =~= invalid_user_agent_sentinel());
    }
    v
}

/// The two request headers after sentinel substitution.
pub struct ExtractedHeaders {
    pub referer: Vec<u8>,
    pub user_agent: Vec<u8>,
}

impl ExtractedHeaders {
    /// Collapses the raw headers to their effective strings.
    pub fn from_raw(referer: RawHeader, user_agent: RawHeader) -> (h: ExtractedHeaders)
        ensures
            h.referer@ == effective_referer(referer@),
            h.user_agent@ == effective_user_agent(user_agent@),
    {
        let r: Vec<u8> = match referer {
            RawHeader::Missing => missing_referer_bytes(),
            RawHeader::Invalid => invalid_referer_bytes(),
            RawHeader::Present(v) => v,
        };
        let u: Vec<u8> = match user_agent {
            RawHeader::Missing => missing_user_agent_bytes(),
            RawHeader::Invalid => invalid_user_agent_bytes(),
            RawHeader::Present(v) => v,
        };
        ExtractedHeaders { referer: r, user_agent: u }
    }
}

} // verus!
