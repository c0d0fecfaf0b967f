//! The small random change made to estimates, so that equally good moves
//! are not always told apart the same way.

use crate::rusthello::score::{Ratio, Score};
use rand::distributions::{Range, Sample};
use rand::ChaChaRng;
use vstd::prelude::*;

verus! {

/// A jitter is counted in parts of `JITTER_UNIT`.
pub const JITTER_UNIT: i32 = 1_000_000;

/// The greatest magnitude of a jitter: five in a hundred.
pub const RANDOMNESS: i32 = 50_000;

/// Whether `jitter` is one that a player may apply.
pub open spec fn jitter_in_range(jitter: int) -> bool {
    -RANDOMNESS <= jitter < RANDOMNESS
}

/// The fraction `r` times `1 + jitter / JITTER_UNIT`.
pub open spec fn scaled_by(r: Ratio, jitter: int) -> Ratio {
    Ratio { num: (r.num * (JITTER_UNIT + jitter)) as i64, den: (r.den * JITTER_UNIT) as i64 }
}

/// `score` after a jitter: an estimate is scaled, a final result stays as
/// it is.
pub open spec fn jittered(score: Score, jitter: int) -> Score {
    match score {
        Score::Running(r) => Score::Running(scaled_by(r, jitter)),
        Score::Ended(d) => Score::Ended(d),
    }
}

/// Scaling a modest fraction by a jitter in range stays within the
/// machine's integers, keeps the denominator positive and the sign of the
/// numerator.
pub proof fn lemma_scaled_fits(r: Ratio, jitter: int)
    requires
        r.modest(),
        jitter_in_range(jitter),
    ensures
        scaled_by(r, jitter).num == r.num * (JITTER_UNIT + jitter),
        scaled_by(r, jitter).den == r.den * JITTER_UNIT,
        scaled_by(r, jitter).wf(),
        (scaled_by(r, jitter).num > 0) == (r.num > 0),
        (scaled_by(r, jitter).num < 0) == (r.num < 0),
{
    let factor = JITTER_UNIT + jitter;
    assert(0 < factor < 2_000_000);
    assert(-0x7fff_ffff * 2_000_000 <= r.num * factor <= 0x7fff_ffff * 2_000_000
        && ((r.num * factor > 0) == (r.num > 0)) && ((r.num * factor < 0) == (r.num < 0)))
        by (nonlinear_arith)
        requires
            -0x7fff_ffff <= r.num <= 0x7fff_ffff,
            0 < factor < 2_000_000,
    ;
    assert(0 < r.den * 1_000_000 <= 0x7fff_ffff * 1_000_000) by (nonlinear_arith)
        requires
            0 < r.den <= 0x7fff_ffff,
    ;
}

/// A product of two products, regrouped.
proof fn lemma_regroup(a: int, b: int, c: int, d: int)
    ensures
        (a * b) * (c * d) == (a * c) * (b * d),
{
    vstd::arithmetic::mul::lemma_mul_is_associative(a, b, c * d);
    vstd::arithmetic::mul::lemma_mul_is_associative(b, c, d);
    vstd::arithmetic::mul::lemma_mul_is_commutative(b, c);
    vstd::arithmetic::mul::lemma_mul_is_associative(c, b, d);
    vstd::arithmetic::mul::lemma_mul_is_associative(a, c, b * d);
}

/// One jitter applied to two scores leaves their order as it is.
pub proof fn lemma_common_jitter_keeps_order(a: Score, b: Score, jitter: int)
    requires
        a.modest(),
        b.modest(),
        jitter_in_range(jitter),
    ensures
        jittered(a, jitter).above(jittered(b, jitter)) == a.above(b),
        jittered(a, jitter).level(jittered(b, jitter)) == a.level(b),
{
    match (a, b) {
        (Score::Running(x), Score::Running(y)) => {
            lemma_scaled_fits(x, jitter);
            lemma_scaled_fits(y, jitter);
            let factor = JITTER_UNIT + jitter;
            let unit = JITTER_UNIT as int;
            let (xn, xd, yn, yd) = (x.num as int, x.den as int, y.num as int, y.den as int);
            let plain = xn * yd - yn * xd;
            lemma_regroup(xn, factor, yd, unit);
            lemma_regroup(yn, factor, xd, unit);
            assert((xn * yd) * (factor * unit) - (yn * xd) * (factor * unit) == plain * (factor
                * unit)) by (nonlinear_arith)
                requires
                    plain == xn * yd - yn * xd,
            ;
            assert(factor * unit > 0) by (nonlinear_arith)
                requires
                    factor > 0,
                    unit > 0,
            ;
            assert((plain * (factor * unit) > 0) == (plain > 0) && (plain * (factor * unit) == 0)
                == (plain == 0)) by (nonlinear_arith)
                requires
                    factor * unit > 0,
            ;
        },
        (Score::Running(x), Score::Ended(_)) => {
            lemma_scaled_fits(x, jitter);
        },
        (Score::Ended(_), Score::Running(y)) => {
            lemma_scaled_fits(y, jitter);
        },
        _ => {},
    }
}

/// Applies `jitter` to `score`.
pub fn apply_jitter(score: Score, jitter: i32) -> (r: Score)
    requires
        score.modest(),
        jitter_in_range(jitter as int),
    ensures
        r == jittered(score, jitter as int),
        r.wf(),
{
    match score {
        Score::Running(value) => {
            proof {
                lemma_scaled_fits(value, jitter as int);
            }
            let factor: i64 = JITTER_UNIT as i64 + jitter as i64;
            Score::Running(
                Ratio { num: value.num * factor, den: value.den * (JITTER_UNIT as i64) },
            )
        },
        Score::Ended(d) => Score::Ended(d),
    }
}

/// The number that a `rand::distributions::Range` from `low` to `high`
/// gives when it is sampled once with a `rand::ChaChaRng` fresh from
/// `new_unseeded`. Such a generator starts from a fixed key, so the number
/// is the same on every run; which number it is takes the generator to
/// say.
pub uninterp spec fn unseeded_sample(low: i32, high: i32) -> i32;

/// Draws a number with `rand`: a `distributions::Range` from `low` to
/// `high` is sampled once with a `ChaChaRng` made by `new_unseeded`. The
/// range is made only where `low < high`. As the documentation of
/// `new_unseeded` says, an unseeded generator gives the same numbers every
/// time, so the sample is the one that `unseeded_sample` names; and a
/// sample of integers lies at or above `low` and below `high`. Nothing
/// else is claimed of the number.
#[verifier::external_body]
fn sample_between(low: i32, high: i32) -> (sample: i32)
    requires
        low < high,
    ensures
        sample == unseeded_sample(low, high),
        low <= sample < high,
{
    let mut between = Range::new(low, high);
    let mut rng = ChaChaRng::new_unseeded();
    between.sample(&mut rng)
}

/// The jitter that is drawn for an evaluation: the sample between
/// `-RANDOMNESS` and `RANDOMNESS` of a generator that has not been seeded.
pub open spec fn drawn_jitter() -> i32 {
    unseeded_sample((-RANDOMNESS) as i32, RANDOMNESS)
}

/// Draws the jitter for one evaluation: `drawn_jitter()`, which is in
/// range.
pub fn draw_jitter() -> (jitter: i32)
    ensures
        jitter == drawn_jitter(),
        jitter_in_range(jitter as int),
{
    sample_between(-RANDOMNESS, RANDOMNESS)
}

} // verus!
