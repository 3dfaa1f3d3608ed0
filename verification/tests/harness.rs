use memory_heartbeat::harness::resident_megabytes;
use memory_heartbeat::harness::target_length;
use memory_heartbeat::harness::Config;
use memory_heartbeat::harness::Driver;
use memory_heartbeat::harness::{HB_INC, HB_INTVL, ITERS, MAX_MEM_USAGE, MEASURE_INTVL, MEGABYTE};
use memory_heartbeat::heartbeat::Heartbeat;
use memory_heartbeat::heartbeat::HeartbeatStage::{O, P, R, S, S2, T};

fn small(iterations: u64) -> Config {
    Config {
        heartbeat_interval: 1,
        measure_interval: 1,
        time_increment: 10,
        iterations,
        max_usage: 1_000_000,
    }
}

#[test]
fn the_default_settings_are_those_of_the_program() {
    let c = Config::default();
    assert_eq!(c.heartbeat_interval, 100);
    assert_eq!(c.measure_interval, 100);
    assert_eq!(c.time_increment, 10);
    assert_eq!(c.iterations, 600);
    assert_eq!(c.max_usage, 6_000_000_000);
    assert_eq!(
        c,
        Config {
            heartbeat_interval: HB_INTVL,
            measure_interval: MEASURE_INTVL,
            time_increment: HB_INC,
            iterations: ITERS,
            max_usage: MAX_MEM_USAGE,
        }
    );
    assert_eq!(MEGABYTE, 1 << 20);
}

#[test]
fn target_length_is_the_share_of_the_ceiling() {
    let at = |stage, time| Heartbeat::at(stage, time).unwrap().level();
    assert_eq!(target_length(&at(O, 0), 6_000_000_000), 1_200_000_000);
    assert_eq!(target_length(&at(S, 0), 6_000_000_000), 6_000_000_000);
    assert_eq!(target_length(&at(S2, 0), 6_000_000_000), 0);
    assert_eq!(target_length(&at(T, 80), 6_000_000_000), 1_950_000_000);
    assert_eq!(target_length(&at(P, 40), 1000), 262);
    assert_eq!(target_length(&at(R, 45), u64::MAX), usize::MAX);
    assert_eq!(target_length(&at(O, 0), 0), 0);
}

#[test]
fn resident_megabytes_is_what_is_not_free() {
    assert_eq!(resident_megabytes(8 << 30, 3 << 30), 5120);
    assert_eq!(resident_megabytes(1 << 20, 0), 1);
    assert_eq!(resident_megabytes((1 << 20) - 1, 0), 0);
    assert_eq!(resident_megabytes(3 * (1 << 20) + 5, 5), 3);
    assert_eq!(resident_megabytes(3 * (1 << 20) + 5, 6), 2);
    assert_eq!(resident_megabytes(0, 0), 0);
    assert_eq!(resident_megabytes(7, 7), 0);
    assert_eq!(resident_megabytes(u64::MAX, 0), u64::MAX >> 20);
    assert_eq!(resident_megabytes(16_000_000_000, 4_000_000_000), 11444);
}

#[test]
fn resident_megabytes_is_nothing_where_more_is_free_than_there_is() {
    assert_eq!(resident_megabytes(0, 1), 0);
    assert_eq!(resident_megabytes(1 << 30, 2 << 30), 0);
    assert_eq!(resident_megabytes(5, u64::MAX), 0);
}

#[test]
fn there_is_no_driver_for_pages_of_size_zero() {
    assert!(Driver::new(Config::default(), 0).is_none());
    assert!(Driver::new(Config::default(), 1).is_some());
}

#[test]
fn a_new_driver_stands_at_the_start() {
    let d = Driver::new(Config::default(), 4096).unwrap();
    assert_eq!(d.config(), Config::default());
    assert_eq!(d.ticks_left(), 600);
    assert!(!d.is_done());
    assert_eq!(d.heartbeat().stage(), O);
    assert_eq!(d.heartbeat().stage_time(), 0);
    assert_eq!(d.controller().region_length(), 1);
    assert_eq!(d.controller().page_size(), 4096);
}

#[test]
fn a_tick_sizes_the_region_and_then_advances_the_heartbeat() {
    let mut d = Driver::new(Config::default(), 4096).unwrap();
    let mut plan = d.on_tick().expect("ticks are left");
    // The amplitude at the start is one fifth.
    assert_eq!(plan.old_length(), 1);
    assert_eq!(plan.new_length(), 1_200_000_000);
    assert_eq!(plan.next_page(), 1);
    assert_eq!(plan.end_page(), 292_968);
    assert_eq!(plan.next_offset(), Some(4096));
    assert_eq!(d.controller().region_length(), 1_200_000_000);
    assert_eq!((d.heartbeat().stage(), d.heartbeat().stage_time()), (O, 10));
    assert_eq!(d.ticks_left(), 599);
    // The flat segment goes on: nothing changes at the next tick.
    let next = d.on_tick().unwrap();
    assert_eq!(next.old_length(), 1_200_000_000);
    assert_eq!(next.new_length(), 1_200_000_000);
    assert_eq!(next.next_page(), next.end_page());
    assert_eq!((d.heartbeat().stage(), d.heartbeat().stage_time()), (O, 20));
}

#[test]
fn the_region_follows_the_level_before_the_advance() {
    let mut d = Driver::new(small(200), 64).unwrap();
    let mut shadow = Heartbeat::default();
    let mut length = 1usize;
    while !d.is_done() {
        let expected = target_length(&shadow.level(), 1_000_000).max(1);
        let plan = d.on_tick().unwrap();
        assert_eq!(plan.old_length(), length);
        assert_eq!(plan.new_length(), expected);
        length = expected;
        shadow.inc_time(10);
        assert_eq!(d.heartbeat().stage(), shadow.stage());
        assert_eq!(d.heartbeat().stage_time(), shadow.stage_time());
        assert_eq!(d.controller().region_length(), length);
    }
}

#[test]
fn a_run_ends_after_its_ticks() {
    let mut d = Driver::new(Config::default(), 4096).unwrap();
    let mut ticks = 0;
    while !d.is_done() {
        assert!(d.on_tick().is_some());
        ticks += 1;
        assert_eq!(d.ticks_left(), 600 - ticks);
    }
    assert_eq!(ticks, 600);
    // Six cycles: the clock stands at the end of the last stage.
    assert_eq!((d.heartbeat().stage(), d.heartbeat().stage_time()), (T, 160));
    let length = d.controller().region_length();
    assert!(d.on_tick().is_none());
    assert!(d.on_tick().is_none());
    assert!(d.is_done());
    assert_eq!(d.ticks_left(), 0);
    assert_eq!((d.heartbeat().stage(), d.heartbeat().stage_time()), (T, 160));
    assert_eq!(d.controller().region_length(), length);
}

#[test]
fn a_run_of_no_ticks_is_over_at_once() {
    let mut d = Driver::new(small(0), 4096).unwrap();
    assert!(d.is_done());
    assert!(d.on_tick().is_none());
    assert_eq!(d.controller().region_length(), 1);
    assert_eq!((d.heartbeat().stage(), d.heartbeat().stage_time()), (O, 0));
}

#[test]
fn an_amplitude_of_zero_leaves_a_region_of_one_byte() {
    // 73 ticks of 10 lead to the start of the rise from 0.
    let mut d = Driver::new(small(100), 64).unwrap();
    let mut steps = 0;
    while (d.heartbeat().stage(), d.heartbeat().stage_time()) != (S, 10) {
        d.on_tick().unwrap();
        steps += 1;
    }
    assert_eq!(steps, 72);
    let plan = d.on_tick().unwrap();
    assert_eq!(plan.new_length(), 1);
    assert_eq!(d.controller().region_length(), 1);
    assert_eq!((d.heartbeat().stage(), d.heartbeat().stage_time()), (S2, 10));
}

#[test]
fn the_writes_of_a_whole_run_stay_within_the_region() {
    let mut d = Driver::new(small(300), 4096).unwrap();
    let mut peak = 0usize;
    while let Some(mut plan) = d.on_tick() {
        let length = plan.new_length();
        peak = peak.max(length);
        let mut page = plan.next_page();
        while let Some(offset) = plan.next_offset() {
            assert_eq!(offset, page * 4096);
            assert!(offset >= plan.old_length());
            assert!(offset + 4096 <= length);
            page += 1;
        }
        assert_eq!(page, plan.end_page());
    }
    // The spike reaches the full length.
    assert_eq!(peak, 1_000_000);
}

#[test]
fn the_platform_driver_takes_the_page_size_of_the_system() {
    let d = Driver::for_platform(Config::default()).expect("pages have a size");
    assert_eq!(d.controller().page_size(), page_size::get());
    assert!(d.controller().page_size() > 0);
    assert_eq!(d.controller().region_length(), 1);
    assert_eq!(d.ticks_left(), 600);
    assert_eq!((d.heartbeat().stage(), d.heartbeat().stage_time()), (O, 0));
}
