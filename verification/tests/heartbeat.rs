use memory_heartbeat::heartbeat::Heartbeat;
use memory_heartbeat::heartbeat::HeartbeatStage;
use memory_heartbeat::heartbeat::HeartbeatStage::{O, P, PR, Q, R, S, S2, ST, T};
use memory_heartbeat::heartbeat::CYCLE_DURATION;
use memory_heartbeat::heartbeat::STAGE_COUNT;

const STAGES: [HeartbeatStage; 9] = [O, P, PR, Q, R, S, S2, ST, T];

fn at(stage: HeartbeatStage, time: u64) -> Heartbeat {
    Heartbeat::at(stage, time).expect("the time lies within the stage")
}

fn point(h: &Heartbeat) -> (HeartbeatStage, u64) {
    (h.stage(), h.stage_time())
}

fn advanced(stage: HeartbeatStage, time: u64, inc: u64) -> (HeartbeatStage, u64) {
    let mut h = at(stage, time);
    h.inc_time(inc);
    point(&h)
}

#[test]
fn durations_follow_the_table() {
    assert_eq!(O.duration(), 435);
    assert_eq!(P.duration(), 80);
    assert_eq!(PR.duration(), 120);
    assert_eq!(Q.duration(), 30);
    assert_eq!(R.duration(), 45);
    assert_eq!(S.duration(), 10);
    assert_eq!(S2.duration(), 20);
    assert_eq!(ST.duration(), 100);
    assert_eq!(T.duration(), 160);
}

#[test]
fn durations_are_positive_and_sum_to_the_cycle() {
    let mut sum = 0;
    for stage in STAGES {
        assert!(stage.duration() > 0);
        sum += stage.duration();
    }
    assert_eq!(sum, 1000);
    assert_eq!(sum, CYCLE_DURATION);
    assert_eq!(STAGES.len() as u64, STAGE_COUNT);
}

#[test]
fn next_follows_the_order_of_the_cycle() {
    assert_eq!(O.next(), P);
    assert_eq!(P.next(), PR);
    assert_eq!(PR.next(), Q);
    assert_eq!(Q.next(), R);
    assert_eq!(R.next(), S);
    assert_eq!(S.next(), S2);
    assert_eq!(S2.next(), ST);
    assert_eq!(ST.next(), T);
    assert_eq!(T.next(), O);
}

#[test]
fn next_maps_the_stages_one_to_one() {
    for a in STAGES {
        assert_ne!(a.next(), a);
        let mut sources = 0;
        for b in STAGES {
            if b.next() == a {
                sources += 1;
            }
            if a != b {
                assert_ne!(a.next(), b.next());
            }
        }
        assert_eq!(sources, 1);
    }
}

#[test]
fn next_forms_a_single_cycle_of_nine() {
    for start in STAGES {
        let mut stage = start;
        let mut seen = vec![start];
        for step in 1..=27u32 {
            stage = stage.next();
            assert_eq!(stage == start, step % 9 == 0);
            if step < 9 {
                assert!(!seen.contains(&stage));
                seen.push(stage);
            }
        }
        assert_eq!(seen.len(), 9);
    }
}

#[test]
fn default_is_the_start_of_the_cycle() {
    let h = Heartbeat::default();
    assert_eq!(point(&h), (O, 0));
}

#[test]
fn at_takes_times_within_the_stage_only() {
    for stage in STAGES {
        let d = stage.duration();
        assert_eq!(point(&at(stage, 0)), (stage, 0));
        assert_eq!(point(&at(stage, d)), (stage, d));
        assert!(Heartbeat::at(stage, d + 1).is_none());
        assert!(Heartbeat::at(stage, u64::MAX).is_none());
    }
}

#[test]
fn inc_time_of_zero_changes_nothing() {
    for stage in STAGES {
        for time in [0, 1, stage.duration() / 2, stage.duration()] {
            assert_eq!(advanced(stage, time, 0), (stage, time));
        }
    }
}

#[test]
fn inc_time_within_a_stage_adds_up() {
    assert_eq!(advanced(O, 0, 10), (O, 10));
    assert_eq!(advanced(O, 100, 300), (O, 400));
    assert_eq!(advanced(T, 5, 150), (T, 155));
}

#[test]
fn inc_time_up_to_the_end_of_a_stage_stays_in_it() {
    assert_eq!(advanced(O, 0, 435), (O, 435));
    assert_eq!(advanced(S, 3, 7), (S, 10));
    assert_eq!(advanced(T, 0, 160), (T, 160));
}

#[test]
fn inc_time_past_the_end_moves_to_the_next_stage() {
    assert_eq!(advanced(O, 0, 436), (P, 1));
    assert_eq!(advanced(O, 435, 1), (P, 1));
    assert_eq!(advanced(O, 430, 10), (P, 5));
    assert_eq!(advanced(T, 160, 1), (O, 1));
    assert_eq!(advanced(T, 155, 10), (O, 5));
}

#[test]
fn inc_time_crosses_several_stages_in_one_call() {
    // 700 = 435 + 80 + 120 + 30 + 35
    assert_eq!(advanced(O, 0, 700), (R, 35));
    // From Q at 25: 25 + 80 = 105 = 30 + 45 + 10 + 20
    assert_eq!(advanced(Q, 25, 80), (S2, 20));
    assert_eq!(advanced(Q, 25, 81), (ST, 1));
    assert_eq!(advanced(S, 10, 21), (ST, 1));
}

#[test]
fn inc_time_wraps_around_more_than_one_cycle() {
    assert_eq!(advanced(O, 0, 2345), (O, 345));
    assert_eq!(advanced(O, 0, 1440), (P, 5));
    assert_eq!(advanced(O, 0, 3700), (R, 35));
    assert_eq!(advanced(R, 20, 5015), (R, 35));
    assert_eq!(advanced(O, 0, 1_000_000_007), (O, 7));
    for stage in STAGES {
        for time in [1, stage.duration()] {
            for inc in [0, 1, 17, 999] {
                assert_eq!(advanced(stage, time, inc + 3000), advanced(stage, time, inc));
            }
        }
    }
}

#[test]
fn whole_cycles_from_no_time_at_all_end_where_the_cycle_ends() {
    // With nothing on the clock a whole cycle runs up to the end of the
    // stage before, and stays there.
    assert_eq!(advanced(O, 0, 1000), (T, 160));
    assert_eq!(advanced(O, 0, 2000), (T, 160));
    assert_eq!(advanced(P, 0, 1000), (O, 435));
}

#[test]
fn unit_increments_add_up_to_one_call() {
    for stage in STAGES {
        for time in [0, 1, stage.duration() / 2, stage.duration()] {
            for total in [1u64, 9, 10, 11, 160, 435, 436, 999, 1000, 1001, 2500] {
                let mut stepwise = at(stage, time);
                for _ in 0..total {
                    stepwise.inc_time(1);
                }
                assert_eq!(point(&stepwise), advanced(stage, time, total));
            }
        }
    }
}

#[test]
fn two_increments_equal_their_sum() {
    for stage in STAGES {
        for time in [0, stage.duration()] {
            for first in [0u64, 1, 29, 30, 31, 435, 1000, 1234] {
                for second in [0u64, 1, 10, 45, 46, 565, 1000, 4321] {
                    let mut h = at(stage, time);
                    h.inc_time(first);
                    h.inc_time(second);
                    assert_eq!(point(&h), advanced(stage, time, first + second));
                }
            }
        }
    }
}

#[test]
fn the_time_never_runs_past_the_stage() {
    let mut h = Heartbeat::default();
    for inc in [0u64, 1, 7, 10, 435, 436, 1000, 12345, 999_999] {
        for _ in 0..20 {
            h.inc_time(inc);
            assert!(h.stage_time() <= h.stage().duration());
        }
    }
}

#[test]
fn a_hundred_steps_of_ten_make_one_cycle() {
    let mut h = Heartbeat::default();
    let mut visited = vec![h.stage()];
    for _ in 0..100 {
        h.inc_time(10);
        if *visited.last().unwrap() != h.stage() {
            visited.push(h.stage());
        }
    }
    // All nine stages were passed in order, and the clock stands at the very
    // end of the last one: a stage is left only when its time is exceeded.
    assert_eq!(visited, STAGES.to_vec());
    assert_eq!(point(&h), (T, 160));
    // There the amplitude is the one at the start of the cycle.
    let end = h.level();
    let start = Heartbeat::default().level();
    assert_eq!(end.numer() * start.denom(), start.numer() * end.denom());
    // The next step is the first one of the next cycle.
    h.inc_time(10);
    assert_eq!(point(&h), (O, 10));
    let mut fresh = Heartbeat::default();
    fresh.inc_time(10);
    assert_eq!(point(&h), point(&fresh));
}

#[test]
fn the_largest_increment_that_ends_quickly_is_taken() {
    let mut h = at(O, 435);
    h.inc_time(50_000_000);
    // 50_000_435 leaves 435 after 50_000 whole cycles.
    assert_eq!(point(&h), (O, 435));
}
