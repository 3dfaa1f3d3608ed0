//! The shape of the heartbeat: the amplitude at every point of the cycle.
//!
//! Amplitudes are exact fractions. Within a stage that lasts `d` time units the
//! position `adj` is the elapsed time over `d`, and with a base level of one
//! fifth the amplitude is
//!
//! - in `O`, `PR` and `ST`: the base level;
//! - in `P`: `wave(adj) / 2` above the base level, where `wave(x) = x² − x³`;
//! - in `Q`: a line falling from the base level to half of it;
//! - in `R`: a line rising from half the base level to 1;
//! - in `S`: a line falling from 1 to 0;
//! - in `S2`: a line rising from 0 to the base level;
//! - in `T`: `wave(adj)` above the base level.

use vstd::prelude::*;
use crate::heartbeat::Heartbeat;
use crate::heartbeat::HeartbeatStage;
use crate::heartbeat::Phase;

verus! {

/// A fraction of two integers. Two fractions stand for the same number where
/// `same_value` holds of them.
pub struct Fraction {
    pub numer: int,
    pub denom: int,
}

impl Fraction {
    /// The integer `n` as a fraction.
    pub open spec fn whole(n: int) -> Fraction {
        Fraction { numer: n, denom: 1 }
    }

    /// The sum of two fractions.
    pub open spec fn plus(self, other: Fraction) -> Fraction {
        Fraction {
            numer: self.numer * other.denom + other.numer * self.denom,
            denom: self.denom * other.denom,
        }
    }

    /// The difference of two fractions.
    pub open spec fn minus(self, other: Fraction) -> Fraction {
        Fraction {
            numer: self.numer * other.denom - other.numer * self.denom,
            denom: self.denom * other.denom,
        }
    }

    /// The product of two fractions.
    pub open spec fn times(self, other: Fraction) -> Fraction {
        Fraction { numer: self.numer * other.numer, denom: self.denom * other.denom }
    }

    /// Both fractions stand for the same number.
    pub open spec fn same_value(self, other: Fraction) -> bool {
        self.numer * other.denom == other.numer * self.denom
    }
}

/// The amplitude of the flat segments: one fifth.
pub open spec fn base_level() -> Fraction {
    Fraction { numer: 1, denom: 5 }
}

/// One half.
pub open spec fn half() -> Fraction {
    Fraction { numer: 1, denom: 2 }
}

/// The bump `x² − x³`.
pub open spec fn wave_of(x: Fraction) -> Fraction {
    x.times(x).minus(x.times(x).times(x))
}

/// The amplitude of a stage at the position `adj` within it, as the sum of its
/// terms.
pub open spec fn amplitude(stage: HeartbeatStage, adj: Fraction) -> Fraction {
    match stage {
        HeartbeatStage::O | HeartbeatStage::PR | HeartbeatStage::ST => base_level(),
        HeartbeatStage::P => wave_of(adj).times(half()).plus(base_level()),
        HeartbeatStage::Q => adj.times(Fraction::whole(0).minus(base_level().times(half()))).plus(
            base_level(),
        ),
        HeartbeatStage::R => adj.times(Fraction::whole(1).minus(base_level().times(half()))).plus(
            base_level().times(half()),
        ),
        HeartbeatStage::S => Fraction::whole(1).minus(adj),
        HeartbeatStage::S2 => adj.times(base_level()),
        HeartbeatStage::T => wave_of(adj).plus(base_level()),
    }
}

/// How far into its stage a point of the cycle lies: the elapsed time over the
/// stage's duration.
pub open spec fn position_in_stage(p: Phase) -> Fraction {
    Fraction { numer: p.time as int, denom: p.stage.spec_duration() as int }
}

/// The bump `x² − x³` at `x = time / duration`, times `duration³`.
pub open spec fn wave_numer(time: int, duration: int) -> int {
    time * time * (duration - time)
}

/// The amplitude at a point of the cycle, in the form in which `level` returns
/// it: one fixed denominator for each stage.
pub open spec fn level_of(p: Phase) -> Fraction {
    let t = p.time as int;
    let d = p.stage.spec_duration() as int;
    match p.stage {
        HeartbeatStage::O | HeartbeatStage::PR | HeartbeatStage::ST => Fraction {
            numer: 1,
            denom: 5,
        },
        HeartbeatStage::P => Fraction {
            numer: 5 * wave_numer(t, d) + 2 * (d * d * d),
            denom: 10 * (d * d * d),
        },
        HeartbeatStage::Q => Fraction { numer: 2 * d - t, denom: 10 * d },
        HeartbeatStage::R => Fraction { numer: 9 * t + d, denom: 10 * d },
        HeartbeatStage::S => Fraction { numer: d - t, denom: d },
        HeartbeatStage::S2 => Fraction { numer: t, denom: 5 * d },
        HeartbeatStage::T => Fraction {
            numer: 5 * wave_numer(t, d) + d * d * d,
            denom: 5 * (d * d * d),
        },
    }
}

/// An amplitude between 0 and 1, held as an exact fraction.
pub struct Level {
    numer: u64,
    denom: u64,
}

impl View for Level {
    type V = Fraction;

    closed spec fn view(&self) -> Fraction {
        Fraction { numer: self.numer as int, denom: self.denom as int }
    }
}

impl Level {
    #[verifier::type_invariant]
    spec fn at_most_one(self) -> bool {
        0 < self.denom && self.numer <= self.denom
    }

    /// The numerator.
    pub fn numer(&self) -> (n: u64)
        ensures
            n == self@.numer,
            n <= self@.denom,
    {
        proof {
            use_type_invariant(self);
        }
        self.numer
    }

    /// The denominator, which is not 0.
    pub fn denom(&self) -> (d: u64)
        ensures
            d == self@.denom,
            d > 0,
    {
        proof {
            use_type_invariant(self);
        }
        self.denom
    }

    /// The amplitude's share of `ceiling`, rounded down.
    pub fn scale(&self, ceiling: u64) -> (share: u64)
        ensures
            share == (self@.numer * ceiling) / self@.denom,
            share <= ceiling,
    {
        proof {
            use_type_invariant(self);
            lemma_share(self.numer as int, self.denom as int, ceiling as int);
            assert(self.numer * ceiling <= 0xffff_ffff_ffff_ffff * 0xffff_ffff_ffff_ffff)
                by (nonlinear_arith)
                requires
                    self.numer <= 0xffff_ffff_ffff_ffff,
                    ceiling <= 0xffff_ffff_ffff_ffff,
            ;
        }
        let product: u128 = (self.numer as u128) * (ceiling as u128);
        (product / (self.denom as u128)) as u64
    }
}

/// The bump's numerator for a time within a stage.
fn wave(time: u64, duration: u64) -> (w: u64)
    requires
        time <= duration <= 1000,
    ensures
        w == wave_numer(time as int, duration as int),
        27 * w <= 4 * (duration * duration * duration),
{
    proof {
        lemma_wave_bounds(time as int, duration as int);
        assert(duration * duration * duration <= 1000 * 1000 * 1000) by (nonlinear_arith)
            requires
                duration <= 1000,
        ;
        assert(time * time <= duration * duration) by (nonlinear_arith)
            requires
                time <= duration,
        ;
        assert(duration * duration <= 1000 * 1000) by (nonlinear_arith)
            requires
                duration <= 1000,
        ;
    }
    time * time * (duration - time)
}

impl Heartbeat {
    /// The amplitude at the current point of the cycle: a value between 0 and 1.
    pub fn level(&self) -> (l: Level)
        ensures
            l@ == level_of(self@),
            0 <= l@.numer <= l@.denom,
            0 < l@.denom,
    {
        let stage = self.stage();
        let t = self.stage_time();
        let d = stage.duration();
        match stage {
            HeartbeatStage::O | HeartbeatStage::PR | HeartbeatStage::ST => Level {
                numer: 1,
                denom: 5,
            },
            HeartbeatStage::P => {
                let w = wave(t, d);
                let cube = d * d * d;
                Level { numer: 5 * w + 2 * cube, denom: 10 * cube }
            },
            HeartbeatStage::Q => Level { numer: 2 * d - t, denom: 10 * d },
            HeartbeatStage::R => Level { numer: 9 * t + d, denom: 10 * d },
            HeartbeatStage::S => Level { numer: d - t, denom: d },
            HeartbeatStage::S2 => Level { numer: t, denom: 5 * d },
            HeartbeatStage::T => {
                let w = wave(t, d);
                let cube = d * d * d;
                Level { numer: 5 * w + cube, denom: 5 * cube }
            },
        }
    }
}

/// A share of a ceiling is no more than the ceiling.
proof fn lemma_share(numer: int, denom: int, ceiling: int)
    requires
        0 <= numer <= denom,
        0 < denom,
        0 <= ceiling,
    ensures
        0 <= (numer * ceiling) / denom <= ceiling,
        0 <= numer * ceiling <= denom * ceiling,
{
    assert(0 <= numer * ceiling <= denom * ceiling) by (nonlinear_arith)
        requires
            0 <= numer <= denom,
            0 <= ceiling,
    ;
    vstd::arithmetic::div_mod::lemma_div_is_ordered(numer * ceiling, denom * ceiling, denom);
    vstd::arithmetic::div_mod::lemma_div_multiples_vanish(ceiling, denom);
    vstd::arithmetic::div_mod::lemma_div_pos_is_pos(numer * ceiling, denom);
    assert(denom * ceiling == ceiling * denom) by (nonlinear_arith);
}

/// Within a stage the bump is not negative and rises no higher than four
/// twenty-sevenths, its value at two thirds of the stage.
pub proof fn lemma_wave_bounds(time: int, duration: int)
    requires
        0 <= time <= duration,
    ensures
        0 <= wave_numer(time, duration),
        27 * wave_numer(time, duration) <= 4 * (duration * duration * duration),
{
    let t = time;
    let d = duration;
    assert(0 <= (t * t) * (d - t)) by (nonlinear_arith)
        requires
            0 <= t <= d,
    ;
    // 4 d³ − 27 t² (d − t) = (3 t − 2 d)² (3 t + d)
    let root = 3 * t - 2 * d;
    assert(4 * (d * d * d) - 27 * (t * t * (d - t)) == (root * root) * (3 * t + d))
        by (nonlinear_arith)
        requires
            root == 3 * t - 2 * d,
    ;
    assert((root * root) * (3 * t + d) >= 0) by (nonlinear_arith)
        requires
            3 * t + d >= 0,
    ;
}

/// The bump has one hump: it is 0 at both ends of the stage, not negative
/// between them, rises as long as the time is no more than two thirds of the
/// duration, and falls from there on.
pub proof fn lemma_wave_single_hump(earlier: int, later: int, duration: int)
    requires
        0 <= earlier <= later <= duration,
    ensures
        wave_numer(0, duration) == 0,
        wave_numer(duration, duration) == 0,
        0 <= wave_numer(earlier, duration),
        3 * later <= 2 * duration ==> wave_numer(earlier, duration) <= wave_numer(later, duration),
        2 * duration <= 3 * earlier ==> wave_numer(earlier, duration) >= wave_numer(
            later,
            duration,
        ),
{
    lemma_wave_bounds(earlier, duration);
    let s = earlier;
    let t = later;
    let d = duration;
    // wave(t) - wave(s) = (t - s) * (d * (t + s) - (t² + t s + s²))
    let gap = d * (t + s) - (t * t + t * s + s * s);
    assert(wave_numer(t, d) - wave_numer(s, d) == (t - s) * gap) by (nonlinear_arith)
        requires
            gap == d * (t + s) - (t * t + t * s + s * s),
    ;
    if 3 * t <= 2 * d {
        assert(gap >= 0) by (nonlinear_arith)
            requires
                gap == d * (t + s) - (t * t + t * s + s * s),
                0 <= s <= t,
                3 * t <= 2 * d,
        ;
        assert((t - s) * gap >= 0) by (nonlinear_arith)
            requires
                t - s >= 0,
                gap >= 0,
        ;
    }
    if 2 * d <= 3 * s {
        assert(gap <= 0) by (nonlinear_arith)
            requires
                gap == d * (t + s) - (t * t + t * s + s * s),
                0 <= s <= t,
                2 * d <= 3 * s,
        ;
        assert((t - s) * gap <= 0) by (nonlinear_arith)
            requires
                t - s >= 0,
                gap <= 0,
        ;
    }
}

/// At every point of the cycle the amplitude lies between 0 and 1.
pub proof fn lemma_level_in_range(p: Phase)
    requires
        p.settled(),
    ensures
        0 < level_of(p).denom,
        0 <= level_of(p).numer <= level_of(p).denom,
{
    let t = p.time as int;
    let d = p.stage.spec_duration() as int;
    lemma_wave_bounds(t, d);
    assert(d * d * d > 0) by (nonlinear_arith)
        requires
            d > 0,
    ;
}

/// The amplitude that `level` returns is the value of the stage's formula at
/// the point's position in the stage.
pub proof fn lemma_level_follows_formula(p: Phase)
    by (nonlinear_arith)
    ensures
        amplitude(p.stage, position_in_stage(p)).denom > 0,
        level_of(p).same_value(amplitude(p.stage, position_in_stage(p))),
{
}

/// With no time elapsed in a stage the amplitude is the value of the stage's
/// formula at position 0, and with all of the stage's time elapsed it is the
/// value at position 1.
pub proof fn lemma_level_at_stage_ends(stage: HeartbeatStage)
    by (nonlinear_arith)
    ensures
        level_of(Phase { stage, time: 0 }).same_value(amplitude(stage, Fraction::whole(0))),
        level_of(Phase { stage, time: stage.spec_duration() }).same_value(
            amplitude(stage, Fraction::whole(1)),
        ),
{
}

/// The amplitude makes no jump between stages: where a stage ends the next
/// one begins.
pub proof fn lemma_level_is_continuous(stage: HeartbeatStage)
    by (nonlinear_arith)
    ensures
        level_of(Phase { stage, time: stage.spec_duration() }).same_value(
            level_of(Phase { stage: stage.spec_next(), time: 0 }),
        ),
{
}

} // verus!
