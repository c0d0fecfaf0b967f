//! Scores of positions: exact results of finished games and estimates of
//! running ones, under one order.

use std::cmp::Ordering;
use vstd::prelude::*;

verus! {

/// The fraction `num / den`. Estimates are kept as exact fractions, so that
/// comparing two of them never rounds. Two fractions are equal when they
/// have the same value, whatever their parts.
#[derive(Clone, Copy, Debug)]
pub struct Ratio {
    pub num: i64,
    pub den: i64,
}

impl Ratio {
    /// A fraction is well formed when its denominator is positive.
    pub open spec fn wf(self) -> bool {
        self.den > 0
    }

    /// The sign of `self - other` for well-formed fractions: the difference
    /// of the cross products.
    pub open spec fn cross(self, other: Ratio) -> int {
        self.num * other.den - other.num * self.den
    }

    /// A well-formed fraction whose parts are small enough to be scaled
    /// without leaving the machine's integers.
    pub open spec fn modest(self) -> bool {
        0 < self.den <= i32::MAX && -i32::MAX <= self.num <= i32::MAX
    }

    /// `num / den`, or nothing when `den` is not positive.
    pub fn new(num: i64, den: i64) -> (r: Option<Ratio>)
        ensures
            r == (if den > 0 {
                Some(Ratio { num, den })
            } else {
                None
            }),
    {
        if den > 0 {
            Some(Ratio { num, den })
        } else {
            None
        }
    }

    /// Whether `self` is strictly greater than `other`.
    pub fn exceeds(&self, other: &Ratio) -> (b: bool)
        ensures
            b == (self.cross(*other) > 0),
    {
        let (left, right) = self.products(other);
        left > right
    }

    /// Whether `self` and `other` have the same value.
    pub fn same_value(&self, other: &Ratio) -> (b: bool)
        ensures
            b == (self.cross(*other) == 0),
    {
        let (left, right) = self.products(other);
        left == right
    }

    fn products(&self, other: &Ratio) -> (p: (i128, i128))
        ensures
            p.0 == self.num * other.den,
            p.1 == other.num * self.den,
    {
        proof {
            lemma_product_fits(self.num, other.den);
            lemma_product_fits(other.num, self.den);
        }
        let left: i128 = (self.num as i128) * (other.den as i128);
        let right: i128 = (other.num as i128) * (self.den as i128);
        (left, right)
    }
}

impl PartialEq for Ratio {
    fn eq(&self, other: &Ratio) -> (b: bool) {
        self.same_value(other)
    }
}

impl vstd::std_specs::cmp::PartialEqSpecImpl for Ratio {
    open spec fn obeys_eq_spec() -> bool {
        true
    }

    open spec fn eq_spec(&self, other: &Ratio) -> bool {
        self.cross(*other) == 0
    }
}

proof fn lemma_product_fits(a: i64, b: i64)
    ensures
        i128::MIN <= a * b <= i128::MAX,
{
    assert(-0x8000_0000_0000_0000 <= a <= 0x8000_0000_0000_0000);
    assert(-0x8000_0000_0000_0000 <= b <= 0x8000_0000_0000_0000);
    assert(-0x4000_0000_0000_0000_0000_0000_0000_0000 <= a * b
        <= 0x4000_0000_0000_0000_0000_0000_0000_0000) by (nonlinear_arith)
        requires
            -0x8000_0000_0000_0000 <= a <= 0x8000_0000_0000_0000,
            -0x8000_0000_0000_0000 <= b <= 0x8000_0000_0000_0000,
    ;
}

/// One of the two players. Final results are counted as Light's disks minus
/// Dark's, so Light looks for the greatest score and Dark for the least.
#[derive(Clone, Copy, Debug, PartialEq, Eq, Structural)]
pub enum Side {
    Dark,
    Light,
}

/// What a position is worth. Two scores are equal when they rank the same.
#[derive(Clone, Copy, Debug)]
pub enum Score {
    /// An estimate for a game that is still running; positive favours Light.
    Running(Ratio),
    /// The final differential of a finished game, Light minus Dark.
    Ended(i16),
}

impl Score {
    /// A score is well formed when its estimate, if it holds one, is.
    pub open spec fn wf(self) -> bool {
        match self {
            Score::Running(r) => r.wf(),
            Score::Ended(_) => true,
        }
    }

    /// A score whose estimate, if it holds one, is modest.
    pub open spec fn modest(self) -> bool {
        match self {
            Score::Running(r) => r.modest(),
            Score::Ended(_) => true,
        }
    }

    /// `self` ranks strictly above `other`.
    ///
    /// Two results compare by differential and two estimates by value. A
    /// lost game ranks below every estimate and a won game above every
    /// estimate; a draw ranks above the estimates that are not positive and
    /// below the positive ones.
    pub open spec fn above(self, other: Score) -> bool {
        match (self, other) {
            (Score::Running(a), Score::Running(b)) => a.cross(b) > 0,
            (Score::Running(a), Score::Ended(d)) => d < 0 || (d == 0 && a.num > 0),
            (Score::Ended(d), Score::Running(b)) => d > 0 || (d == 0 && b.num <= 0),
            (Score::Ended(d1), Score::Ended(d2)) => d1 > d2,
        }
    }

    /// `self` and `other` rank the same: two equal differentials, or two
    /// estimates of one value. A result never ties with an estimate.
    pub open spec fn level(self, other: Score) -> bool {
        match (self, other) {
            (Score::Running(a), Score::Running(b)) => a.cross(b) == 0,
            (Score::Ended(d1), Score::Ended(d2)) => d1 == d2,
            _ => false,
        }
    }

    /// The order of scores as an `Ordering`.
    pub open spec fn ordering(self, other: Score) -> Ordering {
        if self.level(other) {
            Ordering::Equal
        } else if self.above(other) {
            Ordering::Greater
        } else {
            Ordering::Less
        }
    }

    /// `first` is at least as good as `second` for `side`, and strictly
    /// better for Light: Light asks whether `first` ranks above `second`,
    /// Dark whether it does not.
    pub open spec fn better_for(first: Score, second: Score, side: Side) -> bool {
        match side {
            Side::Light => first.above(second),
            Side::Dark => !first.above(second),
        }
    }

    /// Compares two scores.
    pub fn compare(&self, other: &Score) -> (o: Ordering)
        ensures
            o == self.ordering(*other),
    {
        let level = match (self, other) {
            (Score::Running(a), Score::Running(b)) => a.same_value(b),
            (Score::Ended(d1), Score::Ended(d2)) => *d1 == *d2,
            _ => false,
        };
        if level {
            Ordering::Equal
        } else if Score::is_better(*self, *other) {
            Ordering::Greater
        } else {
            Ordering::Less
        }
    }

    /// Whether `first` ranks strictly above `second`.
    pub fn is_better(first: Score, second: Score) -> (b: bool)
        ensures
            b == first.above(second),
    {
        match first {
            Score::Running(val1) => match second {
                Score::Running(val2) => val1.exceeds(&val2),
                Score::Ended(scr2) => scr2 < 0 || (scr2 == 0 && val1.num > 0),
            },
            Score::Ended(scr1) => match second {
                Score::Running(val2) => scr1 > 0 || (scr1 == 0 && val2.num <= 0),
                Score::Ended(scr2) => scr1 > scr2,
            },
        }
    }

    /// Whether `first` is to be preferred to `second` by `side`.
    pub fn is_better_for(first: Score, second: Score, side: Side) -> (b: bool)
        ensures
            b == Score::better_for(first, second, side),
    {
        match side {
            Side::Light => Score::is_better(first, second),
            Side::Dark => !Score::is_better(first, second),
        }
    }
}

impl PartialEq for Score {
    fn eq(&self, other: &Score) -> (b: bool) {
        match (self, other) {
            (Score::Running(a), Score::Running(b)) => a.same_value(b),
            (Score::Ended(d1), Score::Ended(d2)) => *d1 == *d2,
            _ => false,
        }
    }
}

impl vstd::std_specs::cmp::PartialEqSpecImpl for Score {
    open spec fn obeys_eq_spec() -> bool {
        true
    }

    open spec fn eq_spec(&self, other: &Score) -> bool {
        self.level(*other)
    }
}

impl PartialOrd for Score {
    fn partial_cmp(&self, other: &Score) -> (o: Option<Ordering>) {
        Some(self.compare(other))
    }
}

impl vstd::std_specs::cmp::PartialOrdSpecImpl for Score {
    open spec fn obeys_partial_cmp_spec() -> bool {
        true
    }

    open spec fn partial_cmp_spec(&self, other: &Score) -> Option<Ordering> {
        Some(self.ordering(*other))
    }
}

/// Of two finished games the one with the greater differential compares as
/// greater.
pub proof fn lemma_results_order_by_differential(d1: i16, d2: i16)
    requires
        d1 > d2,
    ensures
        Score::Ended(d1).ordering(Score::Ended(d2)) == Ordering::Greater,
{
}

/// Of two estimates the one with the greater value compares as greater.
pub proof fn lemma_estimates_order_by_value(v1: Ratio, v2: Ratio)
    requires
        v1.wf(),
        v2.wf(),
        v1.cross(v2) > 0,
    ensures
        Score::Running(v1).ordering(Score::Running(v2)) == Ordering::Greater,
{
}

/// A draw compares as greater than an estimate exactly when the estimate is
/// not positive.
pub proof fn lemma_draw_against_estimate(v: Ratio)
    requires
        v.wf(),
    ensures
        Score::Ended(0).ordering(Score::Running(v)) == Ordering::Greater <==> v.num <= 0,
{
}

/// Of two well-formed scores exactly one of three holds: the first ranks
/// above the second, the second above the first, or they rank the same.
pub proof fn lemma_order_is_total(a: Score, b: Score)
    requires
        a.wf(),
        b.wf(),
    ensures
        a.above(b) || b.above(a) || a.level(b),
        !(a.above(b) && b.above(a)),
        !(a.above(b) && a.level(b)),
        a.level(b) == b.level(a),
{
}

/// The order of well-formed scores is transitive.
pub proof fn lemma_order_is_transitive(a: Score, b: Score, c: Score)
    requires
        a.wf(),
        b.wf(),
        c.wf(),
        a.above(b),
        b.above(c),
    ensures
        a.above(c),
{
    match (a, b, c) {
        (Score::Running(x), Score::Running(y), Score::Running(z)) => {
            lemma_cross_chain(x, y, z);
        },
        (Score::Running(x), Score::Running(y), Score::Ended(d)) => {
            if d == 0 {
                lemma_cross_sign(x, y);
            }
        },
        (Score::Running(x), Score::Ended(d), Score::Running(z)) => {
            let (xn, xd, zn, zd) = (x.num as int, x.den as int, z.num as int, z.den as int);
            assert(xn * zd - zn * xd > 0) by (nonlinear_arith)
                requires
                    xn > 0,
                    zn <= 0,
                    xd > 0,
                    zd > 0,
            ;
        },
        (Score::Ended(d), Score::Running(y), Score::Running(z)) => {
            if d == 0 {
                lemma_cross_sign(y, z);
            }
        },
        _ => {},
    }
}

/// What ranks above a score ranks above everything that does not rank
/// above that score.
pub proof fn lemma_above_what_is_not_above(a: Score, b: Score, c: Score)
    requires
        a.wf(),
        b.wf(),
        c.wf(),
        a.above(b),
        !c.above(b),
    ensures
        a.above(c),
{
    match (a, b, c) {
        (Score::Running(x), Score::Running(y), Score::Running(z)) => {
            lemma_cross_chain(x, y, z);
        },
        (Score::Running(x), Score::Running(y), Score::Ended(d)) => {
            lemma_cross_sign(x, y);
        },
        (Score::Running(x), Score::Ended(d), Score::Running(z)) => {
            lemma_cross_of_signs(x, z);
        },
        (Score::Ended(d), Score::Running(y), Score::Running(z)) => {
            lemma_cross_sign_weak(y, z);
        },
        _ => {},
    }
}

/// What a score ranks above is ranked above by everything that the score
/// does not rank above.
pub proof fn lemma_below_what_is_not_below(a: Score, b: Score, c: Score)
    requires
        a.wf(),
        b.wf(),
        c.wf(),
        b.above(a),
        !b.above(c),
    ensures
        c.above(a),
{
    match (a, b, c) {
        (Score::Running(x), Score::Running(y), Score::Running(z)) => {
            lemma_cross_chain(z, y, x);
        },
        (Score::Running(x), Score::Running(y), Score::Ended(d)) => {
            lemma_cross_sign(y, x);
        },
        (Score::Running(x), Score::Ended(d), Score::Running(z)) => {
            lemma_cross_of_signs(z, x);
        },
        (Score::Ended(d), Score::Running(y), Score::Running(z)) => {
            lemma_cross_sign_weak(z, y);
        },
        _ => {},
    }
}

/// Of three fractions, the first is greater than the third if one of them
/// is greater than the second and the second is not less than the other.
proof fn lemma_cross_chain(x: Ratio, y: Ratio, z: Ratio)
    requires
        x.wf(),
        y.wf(),
        z.wf(),
        (x.cross(y) > 0 && y.cross(z) >= 0) || (x.cross(y) >= 0 && y.cross(z) > 0),
    ensures
        x.cross(z) > 0,
{
    let (xn, xd, yn, yd, zn, zd) = (
        x.num as int,
        x.den as int,
        y.num as int,
        y.den as int,
        z.num as int,
        z.den as int,
    );
    let first = xn * yd - yn * xd;
    let second = yn * zd - zn * yd;
    assert(first * zd >= 0 && second * xd >= 0 && (first > 0 ==> first * zd > 0) && (second > 0
        ==> second * xd > 0)) by (nonlinear_arith)
        requires
            first >= 0,
            second >= 0,
            zd > 0,
            xd > 0,
    ;
    assert(first * zd + second * xd == (xn * zd - zn * xd) * yd) by (nonlinear_arith)
        requires
            first == xn * yd - yn * xd,
            second == yn * zd - zn * yd,
    ;
    assert(xn * zd - zn * xd > 0) by (nonlinear_arith)
        requires
            (xn * zd - zn * xd) * yd > 0,
            yd > 0,
    ;
}

/// A positive fraction is greater than one that is not positive.
proof fn lemma_cross_of_signs(x: Ratio, z: Ratio)
    requires
        x.wf(),
        z.wf(),
        x.num > 0,
        z.num <= 0,
    ensures
        x.cross(z) > 0,
{
    let (xn, xd, zn, zd) = (x.num as int, x.den as int, z.num as int, z.den as int);
    assert(xn * zd - zn * xd > 0) by (nonlinear_arith)
        requires
            xn > 0,
            zn <= 0,
            xd > 0,
            zd > 0,
    ;
}

/// A fraction that is not less than a positive one is positive, and one
/// that is not greater than one that is not positive is not positive.
proof fn lemma_cross_sign_weak(x: Ratio, y: Ratio)
    requires
        x.wf(),
        y.wf(),
        x.cross(y) >= 0,
    ensures
        y.num > 0 ==> x.num > 0,
        x.num <= 0 ==> y.num <= 0,
{
    let (xn, xd, yn, yd) = (x.num as int, x.den as int, y.num as int, y.den as int);
    assert(yn > 0 ==> xn > 0) by (nonlinear_arith)
        requires
            xn * yd - yn * xd >= 0,
            xd > 0,
            yd > 0,
    ;
}

/// A fraction that is greater than one that is not negative is positive,
/// and one that is less than one that is not positive is negative.
proof fn lemma_cross_sign(x: Ratio, y: Ratio)
    requires
        x.wf(),
        y.wf(),
        x.cross(y) > 0,
    ensures
        y.num >= 0 ==> x.num > 0,
        x.num <= 0 ==> y.num < 0,
{
    let (xn, xd, yn, yd) = (x.num as int, x.den as int, y.num as int, y.den as int);
    assert(yn >= 0 ==> xn > 0) by (nonlinear_arith)
        requires
            xn * yd - yn * xd > 0,
            xd > 0,
            yd > 0,
    ;
    assert(xn <= 0 ==> yn < 0) by (nonlinear_arith)
        requires
            xn * yd - yn * xd > 0,
            xd > 0,
            yd > 0,
    ;
}

} // verus!
