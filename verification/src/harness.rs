//! The pacing of a run: what to do at each tick of the heartbeat's timer, and
//! how a sample of system memory is reported.
//!
//! The program around the library waits for the ticks, resizes the mapped
//! region as the plans say and reads the system's memory; what is decided at
//! each tick is decided here.

use vstd::prelude::*;
use crate::controller::Controller;
use crate::controller::ControllerView;
use crate::controller::Resize;
use crate::heartbeat::Heartbeat;
use crate::heartbeat::HeartbeatStage;
use crate::heartbeat::Phase;
use crate::level::level_of;
use crate::level::Fraction;
use crate::level::Level;

verus! {

/// Milliseconds between two ticks of the heartbeat.
pub const HB_INTVL: u64 = 100;

/// Milliseconds between two samples of system memory.
pub const MEASURE_INTVL: u64 = 100;

/// Time units by which the heartbeat advances at each tick.
pub const HB_INC: u64 = 10;

/// Number of ticks in a run.
pub const ITERS: u64 = 600;

/// Length in bytes that the region has at an amplitude of 1.
pub const MAX_MEM_USAGE: u64 = 6_000_000_000;

/// Number of bytes in a megabyte, as memory is reported.
pub const MEGABYTE: u64 = 0x10_0000;

/// The settings of a run.
#[derive(Clone, Copy, Debug, PartialEq, Eq)]
pub struct Config {
    /// Milliseconds between two ticks of the heartbeat.
    pub heartbeat_interval: u64,
    /// Milliseconds between two samples of system memory.
    pub measure_interval: u64,
    /// Time units by which the heartbeat advances at each tick.
    pub time_increment: u64,
    /// Number of ticks after which the run ends.
    pub iterations: u64,
    /// Length in bytes that the region has at an amplitude of 1.
    pub max_usage: u64,
}

impl Default for Config {
    /// The settings that the program runs with.
    fn default() -> (c: Config)
        ensures
            c == (Config {
                heartbeat_interval: HB_INTVL,
                measure_interval: MEASURE_INTVL,
                time_increment: HB_INC,
                iterations: ITERS,
                max_usage: MAX_MEM_USAGE,
            }),
    {
        Config {
            heartbeat_interval: HB_INTVL,
            measure_interval: MEASURE_INTVL,
            time_increment: HB_INC,
            iterations: ITERS,
            max_usage: MAX_MEM_USAGE,
        }
    }
}

/// The length that a region has at the given amplitude: the amplitude's share
/// of `max_usage`, rounded down, and no more than a length can be.
pub open spec fn target_of(level: Fraction, max_usage: nat) -> nat {
    let share = (level.numer * max_usage) / level.denom;
    if share > usize::MAX {
        usize::MAX as nat
    } else {
        share as nat
    }
}

/// The length in bytes that the region is to have at the given amplitude.
pub fn target_length(level: &Level, max_usage: u64) -> (length: usize)
    ensures
        length == target_of(level@, max_usage as nat),
        length <= max_usage,
{
    let share = level.scale(max_usage);
    if share > usize::MAX as u64 {
        usize::MAX
    } else {
        share as usize
    }
}

/// Memory in use, in whole megabytes: what the system has in total less what
/// is free, or nothing where more is reported free than there is.
pub open spec fn megabytes_in_use(total_bytes: nat, free_bytes: nat) -> nat {
    if free_bytes <= total_bytes {
        ((total_bytes - free_bytes) / (MEGABYTE as int)) as nat
    } else {
        0
    }
}

/// The figure that a sample reports: the memory in use, in whole megabytes.
pub fn resident_megabytes(total_bytes: u64, free_bytes: u64) -> (megabytes: u64)
    ensures
        megabytes == megabytes_in_use(total_bytes as nat, free_bytes as nat),
{
    if free_bytes <= total_bytes {
        (total_bytes - free_bytes) / MEGABYTE
    } else {
        0
    }
}

/// Asks `page_size::get` for the size of a memory page. The number comes from
/// the operating system and differs between machines; nothing is taken for
/// granted of it, not even that it is more than 0.
#[verifier::external_body]
fn platform_page_size() -> usize {
    page_size::get()
}

/// What a driver holds: the settings, the point that the heartbeat has
/// reached, the region's bookkeeping and the number of ticks still to come.
pub struct DriverView {
    pub config: Config,
    pub phase: Phase,
    pub controller: ControllerView,
    pub ticks_left: nat,
}

impl DriverView {
    /// The start of a run: the heartbeat at the start of its cycle, the region
    /// one byte long, all ticks still to come.
    pub open spec fn at_start(config: Config, page_size: nat) -> DriverView {
        DriverView {
            config,
            phase: Phase { stage: HeartbeatStage::O, time: 0 },
            controller: ControllerView { page_size, region_length: 1 },
            ticks_left: config.iterations as nat,
        }
    }

    /// The length that the region gets at the next tick: the one that belongs
    /// to the amplitude at the point where the heartbeat stands.
    pub open spec fn target(self) -> nat {
        target_of(level_of(self.phase), self.config.max_usage as nat)
    }

    /// The driver after one more tick.
    pub open spec fn after_tick(self) -> DriverView {
        DriverView {
            config: self.config,
            phase: self.phase.advance(self.config.time_increment as nat),
            controller: self.controller.resized(self.target()),
            ticks_left: (self.ticks_left - 1) as nat,
        }
    }
}

/// Drives the heartbeat through a run of ticks. At each tick the region is
/// sized for the amplitude of the moment, and only then does time move on.
pub struct Driver {
    config: Config,
    heartbeat: Heartbeat,
    controller: Controller,
    ticks_left: u64,
}

impl View for Driver {
    type V = DriverView;

    closed spec fn view(&self) -> DriverView {
        DriverView {
            config: self.config,
            phase: self.heartbeat@,
            controller: self.controller@,
            ticks_left: self.ticks_left as nat,
        }
    }
}

impl Driver {
    /// A driver at the start of a run: the heartbeat at the start of its
    /// cycle, the region one byte long, all ticks still to come. There is none
    /// for pages of size 0.
    pub fn new(config: Config, page_size: usize) -> (driver: Option<Driver>)
        ensures
            driver is Some <==> page_size > 0,
            driver matches Some(d) ==> d@ == DriverView::at_start(config, page_size as nat),
    {
        if page_size == 0 {
            return None;
        }
        Some(
            Driver {
                config,
                heartbeat: Heartbeat::default(),
                controller: Controller::new(page_size),
                ticks_left: config.iterations,
            },
        )
    }

    /// A driver at the start of a run on this machine, with pages of the size
    /// that the operating system reports. There is none if it reports 0.
    pub fn for_platform(config: Config) -> (driver: Option<Driver>)
        ensures
            driver matches Some(d) ==> exists|page_size: nat|
                page_size > 0 && d@ == #[trigger] DriverView::at_start(config, page_size),
    {
        let page_size = platform_page_size();
        let driver = Driver::new(config, page_size);
        proof {
            if driver is Some {
                assert(driver->0@ == DriverView::at_start(config, page_size as nat));
            }
        }
        driver
    }

    /// The settings of the run.
    pub fn config(&self) -> (c: Config)
        ensures
            c == self@.config,
    {
        self.config
    }

    /// The heartbeat as it stands.
    pub fn heartbeat(&self) -> (h: &Heartbeat)
        ensures
            h@ == self@.phase,
    {
        &self.heartbeat
    }

    /// The region's bookkeeping as it stands.
    pub fn controller(&self) -> (c: &Controller)
        ensures
            c@ == self@.controller,
    {
        &self.controller
    }

    /// Number of ticks still to come.
    pub fn ticks_left(&self) -> (n: u64)
        ensures
            n == self@.ticks_left,
    {
        self.ticks_left
    }

    /// The run is over: no tick is still to come.
    pub fn is_done(&self) -> (done: bool)
        ensures
            done == (self@.ticks_left == 0),
    {
        self.ticks_left == 0
    }

    /// Takes one tick. While ticks are still to come, returns the plan that
    /// sizes the region for the amplitude at which the heartbeat stood, and
    /// lets the heartbeat advance. Once the run is over, returns `None` and
    /// changes nothing.
    pub fn on_tick(&mut self) -> (plan: Option<Resize>)
        ensures
            plan is Some <==> old(self)@.ticks_left > 0,
            plan matches Some(resize) ==> {
                &&& resize@ == old(self)@.controller.plan(old(self)@.target())
                &&& final(self)@ == old(self)@.after_tick()
            },
            plan is None ==> final(self)@ == old(self)@,
    {
        if self.ticks_left == 0 {
            return None;
        }
        let level = self.heartbeat.level();
        let target = target_length(&level, self.config.max_usage);
        let resize = self.controller.adjust(target);
        self.heartbeat.inc_time(self.config.time_increment);
        self.ticks_left = self.ticks_left - 1;
        Some(resize)
    }
}

} // verus!
