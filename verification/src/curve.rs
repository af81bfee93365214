//! The adaptive quorum/approval curve: a pure function from a proposal's
//! tally and its electorate to a passing outcome.
//!
//! All arithmetic is exact. Since tallies and electorates are `u128`, the
//! products of the curve inequalities can reach 256 bits; they are compared
//! through an exact double-width multiplication.

use vstd::prelude::*;
use vstd::arithmetic::div_mod::lemma_fundamental_div_mod;

verus! {

/// 2^64, the limb base of the double-width multiplication.
pub const BASE64: u128 = 0x1_0000_0000_0000_0000;

/// Splits `a * b` into high and low `u128` halves:
/// `a * b == r.0 * 2^128 + r.1`.
fn wide_mul(a: u128, b: u128) -> (r: (u128, u128))
    ensures
        a * b == r.0 * BASE64 * BASE64 + r.1,
{
    let ah: u128 = a / BASE64;
    let al: u128 = a % BASE64;
    let bh: u128 = b / BASE64;
    let bl: u128 = b % BASE64;
    proof {
        lemma_fundamental_div_mod(a as int, BASE64 as int);
        lemma_fundamental_div_mod(b as int, BASE64 as int);
        assert(ah < BASE64) by (nonlinear_arith)
            requires
                a == BASE64 * ah + al,
                0 <= al,
                a < BASE64 * BASE64,
        ;
        assert(bh < BASE64) by (nonlinear_arith)
            requires
                b == BASE64 * bh + bl,
                0 <= bl,
                b < BASE64 * BASE64,
        ;
        assert(ah * bh <= (BASE64 - 1) * (BASE64 - 1)) by (nonlinear_arith)
            requires
                0 <= ah < BASE64,
                0 <= bh < BASE64,
        ;
        assert(al * bh <= (BASE64 - 1) * (BASE64 - 1)) by (nonlinear_arith)
            requires
                0 <= al < BASE64,
                0 <= bh < BASE64,
        ;
        assert(ah * bl <= (BASE64 - 1) * (BASE64 - 1)) by (nonlinear_arith)
            requires
                0 <= ah < BASE64,
                0 <= bl < BASE64,
        ;
        assert(al * bl <= (BASE64 - 1) * (BASE64 - 1)) by (nonlinear_arith)
            requires
                0 <= al < BASE64,
                0 <= bl < BASE64,
        ;
    }
    let hh: u128 = ah * bh;
    let lh: u128 = al * bh;
    let hl: u128 = ah * bl;
    let ll: u128 = al * bl;
    proof {
        lemma_fundamental_div_mod(ll as int, BASE64 as int);
        lemma_fundamental_div_mod(lh as int, BASE64 as int);
        lemma_fundamental_div_mod(hl as int, BASE64 as int);
        assert(ll / BASE64 <= BASE64 - 2) by (nonlinear_arith)
            requires
                ll == BASE64 * (ll / BASE64) + (ll % BASE64),
                0 <= (ll % BASE64),
                0 <= (ll / BASE64),
                ll <= (BASE64 - 1) * (BASE64 - 1),
        ;
        assert(lh / BASE64 <= BASE64 - 2) by (nonlinear_arith)
            requires
                lh == BASE64 * (lh / BASE64) + (lh % BASE64),
                0 <= (lh % BASE64),
                0 <= (lh / BASE64),
                lh <= (BASE64 - 1) * (BASE64 - 1),
        ;
        assert(hl / BASE64 <= BASE64 - 2) by (nonlinear_arith)
            requires
                hl == BASE64 * (hl / BASE64) + (hl % BASE64),
                0 <= (hl % BASE64),
                0 <= (hl / BASE64),
                hl <= (BASE64 - 1) * (BASE64 - 1),
        ;
    }
    let cross: u128 = ll / BASE64 + lh % BASE64 + hl % BASE64;
    proof {
        lemma_fundamental_div_mod(cross as int, BASE64 as int);
        assert(cross / BASE64 <= 2) by (nonlinear_arith)
            requires
                cross == BASE64 * (cross / BASE64) + (cross % BASE64),
                0 <= (cross % BASE64),
                0 <= (cross / BASE64),
                cross <= 3 * BASE64 - 4,
        ;
        assert((cross % BASE64) * BASE64 <= (BASE64 - 1) * BASE64) by (nonlinear_arith)
            requires
                0 <= (cross % BASE64) < BASE64,
        ;
    }
    let lo: u128 = (cross % BASE64) * BASE64 + ll % BASE64;
    let hi: u128 = hh + lh / BASE64 + hl / BASE64 + cross / BASE64;
    proof {
        assert(a * b == hh * BASE64 * BASE64 + lh * BASE64 + hl * BASE64 + ll)
            by (nonlinear_arith)
            requires
                a == BASE64 * ah + al,
                b == BASE64 * bh + bl,
                hh == ah * bh,
                lh == al * bh,
                hl == ah * bl,
                ll == al * bl,
        ;
        assert(hi * BASE64 * BASE64 + lo == hh * BASE64 * BASE64 + lh * BASE64 + hl * BASE64
            + ll) by (nonlinear_arith)
            requires
                ll == BASE64 * (ll / BASE64) + (ll % BASE64),
                lh == BASE64 * (lh / BASE64) + (lh % BASE64),
                hl == BASE64 * (hl / BASE64) + (hl % BASE64),
                cross == (ll / BASE64) + (lh % BASE64) + (hl % BASE64),
                cross == BASE64 * (cross / BASE64) + (cross % BASE64),
                hi == hh + (lh / BASE64) + (hl / BASE64) + (cross / BASE64),
                lo == (cross % BASE64) * BASE64 + (ll % BASE64),
        ;
    }
    (hi, lo)
}

/// Decides `a * b >= c * d` exactly, free of overflow.
pub fn prod_ge(a: u128, b: u128, c: u128, d: u128) -> (r: bool)
    ensures
        r == (a * b >= c * d),
{
    let (h1, l1) = wide_mul(a, b);
    let (h2, l2) = wide_mul(c, d);
    proof {
        if h1 > h2 {
            assert(a * b > c * d) by (nonlinear_arith)
                requires
                    a * b == h1 * BASE64 * BASE64 + l1,
                    c * d == h2 * BASE64 * BASE64 + l2,
                    h2 < h1,
                    0 <= l1,
                    l2 < BASE64 * BASE64,
            ;
        } else if h1 < h2 {
            assert(c * d > a * b) by (nonlinear_arith)
                requires
                    a * b == h1 * BASE64 * BASE64 + l1,
                    c * d == h2 * BASE64 * BASE64 + l2,
                    h1 < h2,
                    0 <= l2,
                    l1 < BASE64 * BASE64,
            ;
        }
    }
    if h1 > h2 {
        true
    } else if h1 < h2 {
        false
    } else {
        l1 >= l2
    }
}

/// The adaptive quorum/approval curve. A tally passes against electorate `e`
/// if and only if both:
/// - quorum: `turnout >= (min_turnout_permill / 1000) * e`, with zero turnout
///   always failing, and
/// - adaptive approval: `ayes * e >= turnout * (e - turnout)`, i.e. the
///   required approval fraction among the votes cast falls linearly as
///   turnout rises towards the whole electorate, reaching zero at full
///   turnout, and rises towards (but never strictly requires) one as
///   turnout shrinks towards zero.
pub open spec fn curve_passing(
    turnout: u128,
    ayes: u128,
    electorate: u128,
    min_turnout_permill: u128,
) -> bool {
    &&& turnout > 0
    &&& 1000 * turnout >= min_turnout_permill * electorate
    &&& ayes * electorate >= turnout * (electorate - turnout)
}

/// Evaluates the curve exactly, for every `u128` tally and electorate.
pub fn passing(turnout: u128, ayes: u128, electorate: u128, min_turnout_permill: u128) -> (r:
    bool)
    ensures
        r == curve_passing(turnout, ayes, electorate, min_turnout_permill),
{
    if turnout == 0 {
        return false;
    }
    if !prod_ge(1000, turnout, min_turnout_permill, electorate) {
        return false;
    }
    if turnout > electorate {
        proof {
            assert(turnout * (electorate - turnout) < 0) by (nonlinear_arith)
                requires
                    turnout > electorate,
                    0 < turnout,
                    0 <= electorate,
            ;
            assert(ayes * electorate >= 0) by (nonlinear_arith)
                requires
                    0 <= ayes,
                    0 <= electorate,
            ;
        }
        true
    } else {
        prod_ge(ayes, electorate, turnout, electorate - turnout)
    }
}

} // verus!
