//! The authorization gate.
//!
//! A request is authorized when some entry of the configured allow-list
//! is a literal, case-sensitive prefix of the effective referer string.
//! No scheme or host normalization is performed. As an explicit policy
//! decision, the `save_missing_referer` flag additionally authorizes a
//! request whose effective referer is the missing-referer sentinel, so
//! that such visits are recorded instead of rejected.

use crate::bytes::{is_prefix_of, starts_with, bytes_eq, views_of};
use crate::headers::{missing_referer_bytes, missing_referer_sentinel};
use vstd::prelude::*;

verus! {

/// Authorization policy: some allow-list entry is a prefix of the
/// referer, or the flag admits the missing-referer sentinel.
pub open spec fn spec_authorized(
    referer: Seq<u8>,
    allowed: Seq<Seq<u8>>,
    save_missing_referer: bool,
) -> bool {
    (exists|i: int| 0 <= i < allowed.len() && is_prefix_of(#[trigger] allowed[i], referer))
        || (save_missing_referer && referer == missing_referer_sentinel())
}

/// Checks the referer against the allow-list, prefix by prefix.
pub fn is_authorized(referer: &Vec<u8>, allowed: &Vec<Vec<u8>>, save_missing_referer: bool) -> (r:
    bool)
    ensures
        r == spec_authorized(referer@, views_of(allowed@), save_missing_referer),
{
    let ghost allowed_view: Seq<Seq<u8>> = views_of(allowed@);
    let mut i: usize = 0;
    while i < allowed.len()
        invariant
            i <= allowed@.len(),
            allowed_view == views_of(allowed@),
            forall|j: int| 0 <= j < i ==> !is_prefix_of(#[trigger] allowed_view[j], referer@),
        decreases allowed@.len() - i,
    {
        if starts_with(referer, &allowed[i]) {
            proof {
                assert(allowed_view[i as int] == allowed@[i as int]@);
            }
            return true;
        }
        proof {
            assert(allowed_view[i as int] == allowed@[i as int]@);
        }
        i += 1;
    }
    if save_missing_referer {
        let sentinel = missing_referer_bytes();
        if bytes_eq(referer, &sentinel) {
            return true;
        }
    }
    false
}

} // verus!
