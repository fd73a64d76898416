//! Fixed-point risk scores. A score of `s` points is held as `100 * s`
//! rounded down, so the range 0 to 10 becomes `0..=1000`.
use vstd::prelude::*;
use crate::patterns::{severity_weight, reference_pattern_name, PatternMatch, Severity};

verus! {

/// The largest score, in hundredths.
pub const MAX_SCORE: u64 = 1000;

pub open spec fn is_floor_sqrt(r: nat, x: nat) -> bool {
    r * r <= x && x < (r + 1) * (r + 1)
}

/// The integer square root of `x`, rounded down.
pub open spec fn floor_sqrt(x: nat) -> nat {
    choose|r: nat| #[trigger] is_floor_sqrt(r, x)
}

pub open spec fn min_nat(a: nat, b: nat) -> nat {
    if a <= b { a } else { b }
}

/// `min(10, weight * sqrt(files) * (2 if has_reference else 1))`, in hundredths
/// rounded down.
pub open spec fn risk_score_spec(weight: nat, files: nat, has_reference: bool) -> nat {
    let k: nat = if has_reference { 2 * weight } else { weight };
    min_nat(MAX_SCORE as nat, floor_sqrt(10000 * k * k * files))
}

proof fn lemma_floor_sqrt_exists(x: nat)
    ensures
        exists|r: nat| #[trigger] is_floor_sqrt(r, x),
    decreases x,
{
    if x == 0 {
        assert(is_floor_sqrt(0, 0)) by (nonlinear_arith);
    } else {
        lemma_floor_sqrt_exists((x - 1) as nat);
        let r = choose|r: nat| #[trigger] is_floor_sqrt(r, (x - 1) as nat);
        if (r + 1) * (r + 1) <= x {
            assert(x < (r + 2) * (r + 2)) by (nonlinear_arith)
                requires
                    x - 1 < (r + 1) * (r + 1),
            ;
            assert(is_floor_sqrt(r + 1, x));
        } else {
            assert(is_floor_sqrt(r, x));
        }
    }
}

proof fn lemma_floor_sqrt_unique(r: nat, s: nat, x: nat)
    requires
        is_floor_sqrt(r, x),
        is_floor_sqrt(s, x),
    ensures
        r == s,
{
    if r < s {
        assert((r + 1) * (r + 1) <= s * s) by (nonlinear_arith)
            requires
                r + 1 <= s,
        ;
    } else if s < r {
        assert((s + 1) * (s + 1) <= r * r) by (nonlinear_arith)
            requires
                s + 1 <= r,
        ;
    }
}

/// `floor_sqrt(x)` is the one `r` with `r * r <= x < (r + 1) * (r + 1)`.
pub proof fn lemma_floor_sqrt(r: nat, x: nat)
    requires
        is_floor_sqrt(r, x),
    ensures
        floor_sqrt(x) == r,
{
    lemma_floor_sqrt_exists(x);
    lemma_floor_sqrt_unique(floor_sqrt(x), r, x);
}

proof fn lemma_floor_sqrt_monotone(x: nat, y: nat)
    requires
        x <= y,
    ensures
        floor_sqrt(x) <= floor_sqrt(y),
{
    lemma_floor_sqrt_exists(x);
    lemma_floor_sqrt_exists(y);
    let a = floor_sqrt(x);
    let b = floor_sqrt(y);
    if a > b {
        assert((b + 1) * (b + 1) <= a * a) by (nonlinear_arith)
            requires
                b + 1 <= a,
        ;
    }
}

/// The integer square root of `x`, rounded down, by bisection.
pub fn isqrt(x: u128) -> (r: u64)
    ensures
        is_floor_sqrt(r as nat, x as nat),
        r == floor_sqrt(x as nat),
{
    let mut lo: u128 = 0;
    let mut hi: u128 = 0x1_0000_0000_0000_0000;
    assert(x < hi * hi) by (nonlinear_arith)
        requires
            hi == 0x1_0000_0000_0000_0000u128,
            x <= u128::MAX,
    ;
    while hi - lo > 1
        invariant
            lo < hi <= 0x1_0000_0000_0000_0000u128,
            lo * lo <= x,
            x < hi * hi,
        decreases hi - lo,
    {
        let mid: u128 = lo + (hi - lo) / 2;
        assert(mid * mid < 0x1_0000_0000_0000_0000_0000_0000_0000_0000) by (nonlinear_arith)
            requires
                mid < 0x1_0000_0000_0000_0000u128,
        ;
        if mid * mid <= x {
            lo = mid;
        } else {
            hi = mid;
        }
    }
    proof {
        lemma_floor_sqrt(lo as nat, x as nat);
    }
    lo as u64
}

/// `floor_sqrt(x)` is at least `r` whenever `x` is at least `r * r`.
pub proof fn lemma_floor_sqrt_at_least(r: nat, x: nat)
    requires
        r * r <= x,
    ensures
        floor_sqrt(x) >= r,
{
    assert(is_floor_sqrt(r, r * r)) by (nonlinear_arith);
    lemma_floor_sqrt(r, r * r);
    lemma_floor_sqrt_monotone(r * r, x);
}

/// The integer square root of zero is zero.
pub proof fn lemma_floor_sqrt_zero()
    ensures
        floor_sqrt(0) == 0,
{
    assert(is_floor_sqrt(0, 0)) by (nonlinear_arith);
    lemma_floor_sqrt(0, 0);
}

/// The risk score for a summed severity `weight` over a commit that changed
/// `files` files, doubled when an external reference was found.
pub fn risk_score(weight: u64, files: usize, has_reference: bool) -> (r: u64)
    ensures
        r == risk_score_spec(weight as nat, files as nat, has_reference),
        r <= MAX_SCORE,
{
    let ghost k: nat = if has_reference { (2 * weight) as nat } else { weight as nat };
    if files == 0 {
        proof {
            assert(10000 * k * k * 0 == 0);
            assert(is_floor_sqrt(0, 0)) by (nonlinear_arith);
            lemma_floor_sqrt(0, 0);
        }
        return 0;
    }
    if weight >= 10 {
        proof {
            assert(10000 * k * k * files >= 1000 * 1000) by (nonlinear_arith)
                requires
                    k >= 10,
                    files >= 1,
            ;
            assert(is_floor_sqrt(1000, 1000 * 1000)) by (nonlinear_arith);
            lemma_floor_sqrt(1000, 1000 * 1000);
            lemma_floor_sqrt_monotone(1000 * 1000, (10000 * k * k * files) as nat);
        }
        return MAX_SCORE;
    }
    let k_exec: u128 = if has_reference { 2 * weight as u128 } else { weight as u128 };
    assert(k_exec == k);
    let n: u128 = files as u128;
    assert(10000 * k_exec * k_exec * n <= 10000 * 18 * 18 * 0xffff_ffff_ffff_ffffu128) by (nonlinear_arith)
        requires
            k_exec <= 18,
            n <= 0xffff_ffff_ffff_ffffu128,
    ;
    assert(10000 * k_exec <= 10000 * 18) by (nonlinear_arith)
        requires
            k_exec <= 18,
    ;
    assert(10000 * k_exec * k_exec <= 10000 * 18 * 18) by (nonlinear_arith)
        requires
            k_exec <= 18,
    ;
    let x: u128 = 10000 * k_exec * k_exec * n;
    let root = isqrt(x);
    if root >= MAX_SCORE {
        MAX_SCORE
    } else {
        root
    }
}

/// Summed severity weight of a list of matches.
pub open spec fn matches_weight(ms: Seq<PatternMatch>) -> nat
    decreases ms.len(),
{
    if ms.len() == 0 {
        0
    } else {
        matches_weight(ms.drop_last()) + severity_weight(ms.last().severity)
    }
}

/// Whether a list of matches holds a match of the reference-extraction entry.
pub open spec fn has_reference_match(ms: Seq<PatternMatch>) -> bool {
    exists|i: int| 0 <= i < ms.len() && (#[trigger] ms[i]).pattern_name@ == reference_pattern_name()
}

/// The score of a finding with the given matches on a commit that changed
/// `files` files.
pub open spec fn finding_score(ms: Seq<PatternMatch>, files: nat) -> nat {
    risk_score_spec(matches_weight(ms), files, has_reference_match(ms))
}

/// Every score lies in `0..=1000`; it does not decrease when the weight or
/// the file count grows, or when a reference is found.
pub proof fn lemma_risk_score_monotone(w1: nat, w2: nat, n1: nat, n2: nat, r1: bool, r2: bool)
    requires
        w1 <= w2,
        n1 <= n2,
        r1 ==> r2,
    ensures
        risk_score_spec(w1, n1, r1) <= risk_score_spec(w2, n2, r2),
        risk_score_spec(w2, n2, r2) <= MAX_SCORE,
{
    let k1: nat = if r1 { 2 * w1 } else { w1 };
    let k2: nat = if r2 { 2 * w2 } else { w2 };
    assert(k1 <= k2);
    assert(10000 * k1 * k1 * n1 <= 10000 * k2 * k2 * n2) by (nonlinear_arith)
        requires
            k1 <= k2,
            n1 <= n2,
    ;
    lemma_floor_sqrt_monotone(10000 * k1 * k1 * n1, 10000 * k2 * k2 * n2);
}

/// A finding's score stays within `0..=1000`, and adding one more match or
/// more changed files never lowers it.
pub proof fn lemma_finding_score_monotone(ms: Seq<PatternMatch>, m: PatternMatch, n1: nat, n2: nat)
    requires
        n1 <= n2,
    ensures
        finding_score(ms, n1) <= finding_score(ms.push(m), n2),
        finding_score(ms.push(m), n2) <= MAX_SCORE,
{
    let ext = ms.push(m);
    assert(ext.drop_last() =~= ms);
    if has_reference_match(ms) {
        let i = choose|i: int| 0 <= i < ms.len() && (#[trigger] ms[i]).pattern_name@
            == reference_pattern_name();
        assert(ext[i] == ms[i]);
    }
    lemma_risk_score_monotone(
        matches_weight(ms),
        matches_weight(ext),
        n1,
        n2,
        has_reference_match(ms),
        has_reference_match(ext),
    );
}

} // verus!
