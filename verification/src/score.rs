//! Exact scores and confidences.
//!
//! A score is kept as the rational `numer / denom`, counted in hundredths,
//! so that the weighted sum of the scorer is computed without rounding and
//! two scores always compare the way their exact values do.

use vstd::arithmetic::div_mod::{lemma_fundamental_div_mod, lemma_mod_bound};
use vstd::prelude::*;

verus! {

/// Hundredths that make up a whole: the score `100 / 1` is exactly 1.0.
pub const HUNDREDTHS: u128 = 100;

/// The exact value `numer / denom` hundredths.
#[derive(Clone, Copy, Debug, PartialEq, Eq, Structural)]
pub struct Score {
    pub numer: u128,
    pub denom: u64,
}

impl Score {
    /// A score has a positive denominator.
    pub open spec fn wf(self) -> bool {
        self.denom > 0
    }

    /// `self >= other` as exact rationals.
    pub open spec fn at_least(self, other: Score) -> bool {
        self.numer * other.denom >= other.numer * self.denom
    }

    /// `self > other` as exact rationals.
    pub open spec fn exceeds(self, other: Score) -> bool {
        self.numer * other.denom > other.numer * self.denom
    }

    /// `self == other` as exact rationals (`50/1` and `100/2` are the same value).
    pub open spec fn same_value(self, other: Score) -> bool {
        self.numer * other.denom == other.numer * self.denom
    }

    /// The score 0.0.
    pub open spec fn spec_zero() -> Score {
        Score { numer: 0, denom: 1 }
    }

    /// The score 1.0, reserved for certain matches.
    pub open spec fn spec_certain() -> Score {
        Score { numer: 100, denom: 1 }
    }

    /// `hundredths / 100`, as a score.
    pub open spec fn spec_from_hundredths(hundredths: u64) -> Score {
        Score { numer: hundredths as u128, denom: 1 }
    }

    #[verifier::when_used_as_spec(spec_zero)]
    pub fn zero() -> (r: Score)
        ensures
            r == Score::spec_zero(),
            r.wf(),
    {
        Score { numer: 0, denom: 1 }
    }

    #[verifier::when_used_as_spec(spec_certain)]
    pub fn certain() -> (r: Score)
        ensures
            r == Score::spec_certain(),
            r.wf(),
    {
        Score { numer: 100, denom: 1 }
    }

    #[verifier::when_used_as_spec(spec_from_hundredths)]
    pub fn from_hundredths(hundredths: u64) -> (r: Score)
        ensures
            r == Score::spec_from_hundredths(hundredths),
            r.wf(),
    {
        Score { numer: hundredths as u128, denom: 1 }
    }

    /// Whether the score is exactly 0.0.
    pub fn is_zero(&self) -> (r: bool)
        ensures
            r == (self.numer == 0),
    {
        self.numer == 0
    }

    /// Compares two scores exactly. The cross products may not fit in 128
    /// bits, so whole parts are compared first and remainders after.
    pub fn ge(&self, other: &Score) -> (r: bool)
        requires
            self.wf(),
            other.wf(),
        ensures
            r == self.at_least(*other),
    {
        let da: u128 = self.denom as u128;
        let db: u128 = other.denom as u128;
        let qa: u128 = self.numer / da;
        let ra: u128 = self.numer % da;
        let qb: u128 = other.numer / db;
        let rb: u128 = other.numer % db;
        proof {
            lemma_fundamental_div_mod(self.numer as int, da as int);
            lemma_fundamental_div_mod(other.numer as int, db as int);
            lemma_mod_bound(self.numer as int, da as int);
            lemma_mod_bound(other.numer as int, db as int);
            assert(da * qa == qa * da) by (nonlinear_arith);
            assert(db * qb == qb * db) by (nonlinear_arith);
            lemma_split_order(qa as int, ra as int, da as int, qb as int, rb as int, db as int);
            lemma_split_order(qb as int, rb as int, db as int, qa as int, ra as int, da as int);
            assert(ra * db <= 0xFFFF_FFFF_FFFF_FFFF * 0xFFFF_FFFF_FFFF_FFFF) by (nonlinear_arith)
                requires
                    0 <= ra <= 0xFFFF_FFFF_FFFF_FFFF,
                    0 <= db <= 0xFFFF_FFFF_FFFF_FFFF,
            ;
            assert(rb * da <= 0xFFFF_FFFF_FFFF_FFFF * 0xFFFF_FFFF_FFFF_FFFF) by (nonlinear_arith)
                requires
                    0 <= rb <= 0xFFFF_FFFF_FFFF_FFFF,
                    0 <= da <= 0xFFFF_FFFF_FFFF_FFFF,
            ;
        }
        if qa != qb {
            qa > qb
        } else {
            ra * db >= rb * da
        }
    }

    /// Compares two scores exactly for strict order.
    pub fn gt(&self, other: &Score) -> (r: bool)
        requires
            self.wf(),
            other.wf(),
        ensures
            r == self.exceeds(*other),
    {
        !other.ge(self)
    }
}

/// With `a = qa * da + ra` and `b = qb * db + rb` in lowest remainders, the
/// order of `a / da` and `b / db` is that of the whole parts, and of the
/// remainders where the whole parts agree.
proof fn lemma_split_order(qa: int, ra: int, da: int, qb: int, rb: int, db: int)
    requires
        0 <= ra < da,
        0 <= rb < db,
        0 <= qa,
        0 <= qb,
    ensures
        qa > qb ==> (qa * da + ra) * db > (qb * db + rb) * da,
        qa == qb ==> (qa * da + ra) * db - (qb * db + rb) * da == ra * db - rb * da,
{
    assert((qa * da + ra) * db - (qb * db + rb) * da == (qa - qb) * (da * db) + ra * db - rb * da)
        by (nonlinear_arith);
    if qa == qb {
        assert((qa - qb) * (da * db) == 0) by (nonlinear_arith)
            requires
                qa - qb == 0,
        ;
    }
    if qa > qb {
        assert((qa - qb) * (da * db) >= da * db) by (nonlinear_arith)
            requires
                qa - qb >= 1,
                da * db >= 0,
        ;
        assert(da * db >= 0) by (nonlinear_arith)
            requires
                da > 0,
                db > 0,
        ;
        assert(rb * da < db * da) by (nonlinear_arith)
            requires
                rb < db,
                da > 0,
        ;
        assert(ra * db >= 0) by (nonlinear_arith)
            requires
                ra >= 0,
                db > 0,
        ;
    }
}

} // verus!
