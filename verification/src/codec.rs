//! Decimal encoding and parsing of visitor ids.
//!
//! The visitor-tracking cookie carries a visitor id as a decimal byte
//! string. Encoding renders an `i64` the way Rust's `to_string` does;
//! parsing accepts exactly the strings `str::parse::<i64>` accepts: an
//! optional `+` or `-` sign followed by one or more ASCII digits, with the
//! value in range.

use vstd::prelude::*;

verus! {

/// The decimal digits of `n`, most significant first, as ASCII bytes.
pub open spec fn dec_digits(n: nat) -> Seq<u8>
    decreases n,
{
    if n < 10 {
        seq![(n + 48) as u8]
    } else {
        dec_digits((n / 10) as nat).push((n % 10 + 48) as u8)
    }
}

/// The decimal rendering of `n`: a `-` sign for negatives, then digits.
pub open spec fn dec_i64(n: int) -> Seq<u8> {
    if n < 0 {
        seq![45u8] + dec_digits((-n) as nat)
    } else {
        dec_digits(n as nat)
    }
}

pub open spec fn is_digit(b: u8) -> bool {
    48 <= b <= 57
}

pub open spec fn all_digits(s: Seq<u8>) -> bool {
    forall|i: int| 0 <= i < s.len() ==> is_digit(#[trigger] s[i])
}

/// The integer a digit string denotes (most significant digit first).
pub open spec fn digits_value(s: Seq<u8>) -> int
    decreases s.len(),
{
    if s.len() == 0 {
        0
    } else {
        digits_value(s.drop_last()) * 10 + (s.last() - 48)
    }
}

/// What `str::parse::<i64>` accepts and returns, stated over bytes: an
/// optional single `+` or `-`, then one or more ASCII digits, value in
/// the range of `i64`.
pub open spec fn spec_parse_i64(s: Seq<u8>) -> Option<i64> {
    let negative = s.len() > 0 && s[0] == 45;
    let signed = s.len() > 0 && (s[0] == 45 || s[0] == 43);
    let body = if signed {
        s.subrange(1, s.len() as int)
    } else {
        s
    };
    if body.len() == 0 || !all_digits(body) {
        None
    } else {
        let v = if negative {
            -digits_value(body)
        } else {
            digits_value(body)
        };
        if i64::MIN <= v <= i64::MAX {
            Some(v as i64)
        } else {
            None
        }
    }
}

/// Renders `n` in decimal, exactly as `i64::to_string` does.
pub fn i64_to_dec(n: i64) -> (v: Vec<u8>)
    ensures
        v@ == dec_i64(n as int),
{
    let mag: u64 = if n < 0 {
        (-(n as i128)) as u64
    } else {
        n as u64
    };
    let ghost mag0: nat = mag as nat;
    let mut m: u64 = mag;
    let mut rev: Vec<u8> = Vec::new();
    loop
        invariant_except_break
            dec_digits(mag0) =~= dec_digits(m as nat) + rev@.reverse(),
        ensures
            rev@.reverse() =~= dec_digits(mag0),
        decreases m,
    {
        let d: u8 = (m % 10) as u8 + 48;
        let ghost rev_old = rev@;
        rev.push(d);
        proof {
            assert(rev@.reverse() =~= seq![d] + rev_old.reverse());
        }
        if m < 10 {
            proof {
                assert(dec_digits(m as nat) =~= seq![d]);
                assert(dec_digits(m as nat) + rev_old.reverse() =~= seq![d]
                    + rev_old.reverse());
            }
            break;
        }
        proof {
            assert(dec_digits(m as nat) =~= dec_digits((m as nat / 10) as nat).push(d));
            assert(dec_digits((m as nat / 10) as nat) + rev@.reverse() =~= dec_digits(
                m as nat,
            ) + rev_old.reverse());
        }
        m = m / 10;
    }
    let mut out: Vec<u8> = Vec::new();
    let ghost base: Seq<u8> = if n < 0 {
        seq![45u8]
    } else {
        Seq::empty()
    };
    if n < 0 {
        out.push(45);
    }
    let len: usize = rev.len();
    let mut i: usize = len;
    while i > 0
        invariant
            i <= len,
            len == rev@.len(),
            out@ =~= base + Seq::new((len - i) as nat, |k: int| rev@[len - 1 - k]),
        decreases i,
    {
        i = i - 1;
        out.push(rev[i]);
        proof {
            assert(out@ =~= base + Seq::new((len - i) as nat, |k: int| rev@[len - 1 - k]));
        }
    }
    proof {
        assert(Seq::new(len as nat, |k: int| rev@[len - 1 - k]) =~= rev@.reverse());
        assert(out@ =~= dec_i64(n as int));
    }
    out
}

/// If a digit prefix already denotes a huge value, any extension of it
/// still does: each further byte multiplies the value by ten and shifts
/// it by at most 48.
proof fn lemma_digits_value_extend_large(s: Seq<u8>, k: int, bound: int)
    requires
        0 <= k <= s.len(),
        bound >= 48,
        digits_value(s.subrange(0, k)) > bound,
    ensures
        digits_value(s) > bound,
    decreases s.len() - k,
{
    if k == s.len() {
        assert(s.subrange(0, k) =~= s);
    } else {
        assert(s.drop_last().subrange(0, k) =~= s.subrange(0, k));
        lemma_digits_value_extend_large(s.drop_last(), k, bound);
        assert(digits_value(s) == digits_value(s.drop_last()) * 10 + (s.last() - 48));
        assert(digits_value(s.drop_last()) * 10 > bound * 10) by (nonlinear_arith)
            requires digits_value(s.drop_last()) > bound, bound >= 48;
    }
}

/// Parses a decimal byte string as `str::parse::<i64>` would, returning
/// `None` exactly where that parse fails.
#[verifier::loop_isolation(false)]
pub fn parse_i64(s: &Vec<u8>) -> (r: Option<i64>)
    ensures
        r == spec_parse_i64(s@),
{
    let n: usize = s.len();
    if n == 0 {
        return None;
    }
    let first: u8 = s[0];
    let negative: bool = first == 45;
    let signed: bool = negative || first == 43;
    let start: usize = if signed {
        1
    } else {
        0
    };
    let ghost body: Seq<u8> = s@.subrange(start as int, n as int);
    proof {
        if !signed {
            assert(body =~= s@);
        }
    }
    if n == start {
        return None;
    }
    let mut mag: u64 = 0;
    let mut i: usize = start;
    while i < n
        invariant
            start <= i <= n,
            n == s@.len(),
            start <= 1,
            body == s@.subrange(start as int, n as int),
            all_digits(body.subrange(0, i - start)),
            mag == digits_value(body.subrange(0, i - start)),
        decreases n - i,
    {
        let b: u8 = s[i];
        if b < 48 || b > 57 {
            proof {
                assert(body[i - start] == b);
                assert(!all_digits(body));
            }
            return None;
        }
        let d: u64 = (b - 48) as u64;
        let ghost taken = body.subrange(0, i - start);
        let ghost taken1 = body.subrange(0, i + 1 - start);
        proof {
            assert(taken1.drop_last() =~= taken);
            assert(taken1.last() == b);
            assert(digits_value(taken1) == mag * 10 + d);
        }
        if mag > (u64::MAX - d) / 10 {
            proof {
                assert(mag * 10 + d > u64::MAX) by (nonlinear_arith)
                    requires
                        mag > (u64::MAX - d) / 10,
                        d <= 9,
                        mag <= u64::MAX,
                ;
                lemma_digits_value_extend_large(body, i + 1 - start, u64::MAX as int);
                assert(digits_value(body) > u64::MAX);
                assert(spec_parse_i64(s@) == Option::<i64>::None);
            }
            return None;
        }
        proof {
            assert(mag * 10 + d <= u64::MAX) by (nonlinear_arith)
                requires
                    mag <= (u64::MAX - d) / 10,
                    d <= 9,
            ;
        }
        mag = mag * 10 + d;
        i = i + 1;
    }
    proof {
        assert(body.subrange(0, i - start) =~= body);
    }
    if negative {
        if mag > 9223372036854775808u64 {
            return None;
        }
        if mag == 9223372036854775808u64 {
            Some(i64::MIN)
        } else {
            Some(-(mag as i64))
        }
    } else {
        if mag > 9223372036854775807u64 {
            None
        } else {
            Some(mag as i64)
        }
    }
}

/// The digits of any value are digits, and denote that value.
pub proof fn lemma_dec_digits_value(m: nat)
    ensures
        all_digits(dec_digits(m)),
        digits_value(dec_digits(m)) == m,
        dec_digits(m).len() >= 1,
        is_digit(dec_digits(m)[0]),
    decreases m,
{
    if m < 10 {
        let s = dec_digits(m);
        assert(((m + 48) as u8) as nat == m + 48);
        assert(s.drop_last() =~= Seq::<u8>::empty());
        assert(digits_value(Seq::<u8>::empty()) == 0);
        assert(digits_value(s) == m);
    } else {
        lemma_dec_digits_value((m / 10) as nat);
        let s = dec_digits(m);
        let t = dec_digits((m / 10) as nat);
        let d: u8 = (m % 10 + 48) as u8;
        assert(d as nat == m % 10 + 48);
        assert(s =~= t.push(d));
        assert(s.drop_last() =~= t);
        assert(digits_value(s) == digits_value(t) * 10 + (d - 48));
        assert((m / 10) * 10 + m % 10 == m);
        assert(forall|i: int| 0 <= i < s.len() ==> is_digit(#[trigger] s[i]));
    }
}

/// Round trip: rendering an id in decimal and parsing it back yields
/// the same id, for every `i64`.
pub proof fn lemma_dec_round_trip(n: i64)
    ensures
        spec_parse_i64(dec_i64(n as int)) == Some(n),
{
    if n >= 0 {
        lemma_dec_digits_value(n as nat);
        let s = dec_i64(n as int);
        assert(is_digit(s[0]));
        assert(digits_value(s) == n);
    } else {
        let mag: nat = (-(n as int)) as nat;
        lemma_dec_digits_value(mag);
        let s = dec_i64(n as int);
        assert(s[0] == 45);
        assert(s.subrange(1, s.len() as int) =~= dec_digits(mag));
        assert(digits_value(s.subrange(1, s.len() as int)) == mag);
    }
}

} // verus!
