//! The phases of one heartbeat and the clock that walks through them.

use vstd::prelude::*;

verus! {

/// One phase of the cardiac cycle, in the order in which they follow each other.
#[derive(Copy, Clone, Debug, PartialEq, Eq, Structural)]
pub enum HeartbeatStage {
    /// The resting line between two beats.
    O,
    /// The rounded P wave.
    P,
    /// The PR segment.
    PR,
    /// The short dip before the spike.
    Q,
    /// The spike.
    R,
    /// The fall from the spike's top to the floor.
    S,
    /// The steeply-angled part going to T.
    S2,
    /// The shallowly-angled part going to T.
    ST,
    /// The broad T wave.
    T,
}

/// Number of stages in the cycle.
pub const STAGE_COUNT: u64 = 9;

/// Time that one whole cycle lasts: the sum of the durations of all stages.
pub const CYCLE_DURATION: u64 = 1000;

impl HeartbeatStage {
    /// Time the stage lasts.
    pub open spec fn spec_duration(self) -> nat {
        match self {
            HeartbeatStage::O => 435,
            HeartbeatStage::P => 80,
            HeartbeatStage::PR => 120,
            HeartbeatStage::Q => 30,
            HeartbeatStage::R => 45,
            HeartbeatStage::S => 10,
            HeartbeatStage::S2 => 20,
            HeartbeatStage::ST => 100,
            HeartbeatStage::T => 160,
        }
    }

    /// The stage that follows this one; after the last comes the first.
    pub open spec fn spec_next(self) -> HeartbeatStage {
        match self {
            HeartbeatStage::O => HeartbeatStage::P,
            HeartbeatStage::P => HeartbeatStage::PR,
            HeartbeatStage::PR => HeartbeatStage::Q,
            HeartbeatStage::Q => HeartbeatStage::R,
            HeartbeatStage::R => HeartbeatStage::S,
            HeartbeatStage::S => HeartbeatStage::S2,
            HeartbeatStage::S2 => HeartbeatStage::ST,
            HeartbeatStage::ST => HeartbeatStage::T,
            HeartbeatStage::T => HeartbeatStage::O,
        }
    }

    /// Position of the stage in the cycle, counted from `O` at 0.
    pub open spec fn position(self) -> nat {
        match self {
            HeartbeatStage::O => 0,
            HeartbeatStage::P => 1,
            HeartbeatStage::PR => 2,
            HeartbeatStage::Q => 3,
            HeartbeatStage::R => 4,
            HeartbeatStage::S => 5,
            HeartbeatStage::S2 => 6,
            HeartbeatStage::ST => 7,
            HeartbeatStage::T => 8,
        }
    }

    /// The stage reached from this one by `steps` successive transitions.
    pub open spec fn after(self, steps: nat) -> HeartbeatStage
        decreases steps,
    {
        if steps == 0 {
            self
        } else {
            self.spec_next().after((steps - 1) as nat)
        }
    }

    /// Time that `steps` stages in a row last, this one being the first.
    pub open spec fn time_through(self, steps: nat) -> nat
        decreases steps,
    {
        if steps == 0 {
            0
        } else {
            self.spec_duration() + self.spec_next().time_through((steps - 1) as nat)
        }
    }

    /// Time the stage lasts.
    pub fn duration(&self) -> (d: u64)
        ensures
            d == self.spec_duration(),
            0 < d <= CYCLE_DURATION,
    {
        match *self {
            HeartbeatStage::O => 435,
            HeartbeatStage::P => 80,
            HeartbeatStage::PR => 120,
            HeartbeatStage::Q => 30,
            HeartbeatStage::R => 45,
            HeartbeatStage::S => 10,
            HeartbeatStage::S2 => 20,
            HeartbeatStage::ST => 100,
            HeartbeatStage::T => 160,
        }
    }

    /// The stage that follows this one.
    pub fn next(self) -> (n: Self)
        ensures
            n == self.spec_next(),
    {
        match self {
            HeartbeatStage::O => HeartbeatStage::P,
            HeartbeatStage::P => HeartbeatStage::PR,
            HeartbeatStage::PR => HeartbeatStage::Q,
            HeartbeatStage::Q => HeartbeatStage::R,
            HeartbeatStage::R => HeartbeatStage::S,
            HeartbeatStage::S => HeartbeatStage::S2,
            HeartbeatStage::S2 => HeartbeatStage::ST,
            HeartbeatStage::ST => HeartbeatStage::T,
            HeartbeatStage::T => HeartbeatStage::O,
        }
    }
}

/// A point in the cycle: a stage and the time spent in it.
pub struct Phase {
    pub stage: HeartbeatStage,
    pub time: nat,
}

impl Phase {
    /// The time does not run past the end of the stage.
    pub open spec fn settled(self) -> bool {
        self.time <= self.stage.spec_duration()
    }

    /// Carries time that runs past the end of a stage over into the stages
    /// that follow, as often as it takes.
    pub open spec fn normalize(self) -> Phase
        decreases self.time,
    {
        if self.time > self.stage.spec_duration() {
            (Phase {
                stage: self.stage.spec_next(),
                time: (self.time - self.stage.spec_duration()) as nat,
            }).normalize()
        } else {
            self
        }
    }

    /// The point reached when `delta` more time has passed.
    pub open spec fn advance(self, delta: nat) -> Phase {
        (Phase { stage: self.stage, time: self.time + delta }).normalize()
    }

    /// The point reached by `count` separate advances of one time unit each.
    pub open spec fn advance_by_units(self, count: nat) -> Phase
        decreases count,
    {
        if count == 0 {
            self
        } else {
            self.advance(1).advance_by_units((count - 1) as nat)
        }
    }
}

/// The clock of the heartbeat: the current stage and the time elapsed in it.
pub struct Heartbeat {
    stage: HeartbeatStage,
    stage_time: u64,
}

impl View for Heartbeat {
    type V = Phase;

    closed spec fn view(&self) -> Phase {
        Phase { stage: self.stage, time: self.stage_time as nat }
    }
}

impl Heartbeat {
    #[verifier::type_invariant]
    spec fn within_stage(self) -> bool {
        self.stage_time <= self.stage.spec_duration()
    }

    /// A heartbeat at the given point of the cycle, if the time lies within
    /// the stage.
    pub fn at(stage: HeartbeatStage, stage_time: u64) -> (h: Option<Heartbeat>)
        ensures
            h is Some <==> stage_time <= stage.spec_duration(),
            h matches Some(hb) ==> hb@ == (Phase { stage, time: stage_time as nat }),
    {
        if stage_time <= stage.duration() {
            Some(Heartbeat { stage, stage_time })
        } else {
            None
        }
    }

    /// The current stage.
    pub fn stage(&self) -> (s: HeartbeatStage)
        ensures
            s == self@.stage,
    {
        self.stage
    }

    /// Time elapsed in the current stage.
    pub fn stage_time(&self) -> (t: u64)
        ensures
            t == self@.time,
            self@.settled(),
    {
        proof {
            use_type_invariant(self);
        }
        self.stage_time
    }

    /// Lets `inc` time units pass, moving on through as many stages as that
    /// takes.
    pub fn inc_time(&mut self, inc: u64)
        ensures
            final(self)@ == old(self)@.advance(inc as nat),
    {
        proof {
            use_type_invariant(&*self);
        }
        let mut stage = self.stage;
        let mut time: u128 = self.stage_time as u128 + inc as u128;
        while time > stage.duration() as u128
            invariant
                (Phase { stage, time: time as nat }).normalize() == old(self)@.advance(inc as nat),
            decreases time,
        {
            time = time - stage.duration() as u128;
            stage = stage.next();
        }
        *self = Heartbeat { stage, stage_time: time as u64 };
    }
}

impl Default for Heartbeat {
    /// The start of a cycle: stage `O` with no time elapsed.
    fn default() -> (h: Heartbeat)
        ensures
            h@ == (Phase { stage: HeartbeatStage::O, time: 0 }),
    {
        Heartbeat { stage: HeartbeatStage::O, stage_time: 0 }
    }
}

/// The transition maps different stages to different stages.
pub proof fn lemma_next_injective(a: HeartbeatStage, b: HeartbeatStage)
    requires
        a.spec_next() == b.spec_next(),
    ensures
        a == b,
{
}

/// Every stage is the successor of some stage.
pub proof fn lemma_next_surjective(b: HeartbeatStage)
    ensures
        exists|a: HeartbeatStage| #[trigger] a.spec_next() == b,
{
    let a = b.after(8);
    reveal_with_fuel(HeartbeatStage::after, 9);
    assert(a.spec_next() == b);
}

/// A transition moves one position forward in the cycle, and from the last
/// position to the first.
pub proof fn lemma_after_position(s: HeartbeatStage, steps: nat)
    ensures
        s.after(steps).position() == (s.position() + steps) % (STAGE_COUNT as nat),
    decreases steps,
{
    if steps > 0 {
        lemma_after_position(s.spec_next(), (steps - 1) as nat);
    }
}

/// The stages form one cycle: following the transitions from any stage leads
/// back to it after every ninth step and at no other. So no stage is its own
/// successor, and no smaller set of stages is closed under the transition.
pub proof fn lemma_next_single_cycle(s: HeartbeatStage, steps: nat)
    ensures
        s.after(steps) == s <==> steps % (STAGE_COUNT as nat) == 0,
{
    lemma_after_position(s, steps);
}

/// From whichever stage the count starts, the durations of nine stages in a
/// row add up to the duration of the cycle.
pub proof fn lemma_cycle_duration(s: HeartbeatStage)
    ensures
        s.time_through(STAGE_COUNT as nat) == CYCLE_DURATION,
        s.after(STAGE_COUNT as nat) == s,
{
    reveal_with_fuel(HeartbeatStage::time_through, 10);
    reveal_with_fuel(HeartbeatStage::after, 10);
}

/// Normalizing leaves a point whose time lies within its stage, and changes
/// nothing about a point that already is one.
pub proof fn lemma_normalize_settles(p: Phase)
    ensures
        p.normalize().settled(),
        p.normalize().normalize() == p.normalize(),
        p.settled() ==> p.normalize() == p,
    decreases p.time,
{
    if p.time > p.stage.spec_duration() {
        lemma_normalize_settles(
            Phase {
                stage: p.stage.spec_next(),
                time: (p.time - p.stage.spec_duration()) as nat,
            },
        );
    }
}

/// Time that is added before normalizing and time that is added after it
/// lead to the same point.
pub proof fn lemma_normalize_then_advance(p: Phase, delta: nat)
    ensures
        p.normalize().advance(delta) == p.advance(delta),
    decreases p.time,
{
    if p.time > p.stage.spec_duration() {
        let q = Phase {
            stage: p.stage.spec_next(),
            time: (p.time - p.stage.spec_duration()) as nat,
        };
        lemma_normalize_then_advance(q, delta);
        assert(p.normalize() == q.normalize());
        assert(p.advance(delta) == q.advance(delta));
    }
}

/// Advancing is additive: two advances in a row lead to the same point as one
/// advance by the sum.
pub proof fn lemma_advance_additive(p: Phase, first: nat, second: nat)
    ensures
        p.advance(first).advance(second) == p.advance(first + second),
{
    lemma_normalize_then_advance(Phase { stage: p.stage, time: p.time + first }, second);
}

/// Advancing one time unit at a time leads to the same point as one advance by
/// the number of units.
pub proof fn lemma_unit_advances(p: Phase, count: nat)
    requires
        p.settled(),
    ensures
        p.advance_by_units(count) == p.advance(count),
    decreases count,
{
    if count == 0 {
        lemma_normalize_settles(p);
    } else {
        let q = p.advance(1);
        lemma_normalize_settles(Phase { stage: p.stage, time: p.time + 1 });
        lemma_unit_advances(q, (count - 1) as nat);
        lemma_advance_additive(p, 1, (count - 1) as nat);
    }
}

/// Time that exceeds what a run of stages lasts is carried over all of them.
pub proof fn lemma_normalize_carries(p: Phase, steps: nat)
    requires
        p.time > p.stage.time_through(steps),
    ensures
        p.normalize() == (Phase {
            stage: p.stage.after(steps),
            time: (p.time - p.stage.time_through(steps)) as nat,
        }).normalize(),
    decreases steps,
{
    if steps > 0 {
        let q = Phase {
            stage: p.stage.spec_next(),
            time: (p.time - p.stage.spec_duration()) as nat,
        };
        lemma_normalize_carries(q, (steps - 1) as nat);
    }
}

/// Time that exceeds a whole cycle wraps around it: the point reached is the
/// same as with one cycle less.
pub proof fn lemma_normalize_whole_cycle(p: Phase)
    requires
        p.time > CYCLE_DURATION,
    ensures
        p.normalize() == (Phase {
            stage: p.stage,
            time: (p.time - CYCLE_DURATION) as nat,
        }).normalize(),
{
    lemma_cycle_duration(p.stage);
    lemma_normalize_carries(p, STAGE_COUNT as nat);
}

/// An advance that is longer by any number of whole cycles lands on the same
/// stage at the same time, as long as any time is on the clock at all.
pub proof fn lemma_advance_whole_cycles(p: Phase, delta: nat, cycles: nat)
    requires
        p.time + delta > 0,
    ensures
        p.advance(delta + cycles * (CYCLE_DURATION as nat)) == p.advance(delta),
    decreases cycles,
{
    if cycles > 0 {
        let less = (cycles - 1) as nat;
        let cycle = CYCLE_DURATION as nat;
        assert(cycles * cycle == less * cycle + cycle) by (nonlinear_arith)
            requires
                cycles == less + 1,
        ;
        lemma_normalize_whole_cycle(
            Phase { stage: p.stage, time: p.time + delta + cycles * cycle },
        );
        lemma_advance_whole_cycles(p, delta, less);
    }
}

} // verus!
