use fand::ramp::{apply_offset, Ramp, RampConfig};

fn cfg() -> RampConfig {
    RampConfig {
        min_pwm: 60,
        max_step_up: 10,
        max_step_down: 3,
        deadband: 3,
    }
}

#[test]
fn ramps_up_by_max_step_up() {
    let mut r = Ramp::new(cfg(), 100);
    assert_eq!(r.step(200), 110);
    assert_eq!(r.step(200), 120);
}

#[test]
fn ramps_down_by_max_step_down() {
    let mut r = Ramp::new(cfg(), 200);
    assert_eq!(r.step(100), 197);
    assert_eq!(r.step(100), 194);
}

#[test]
fn never_overshoots_target() {
    // Up: 5 away with step 10 lands exactly on target.
    let mut r = Ramp::new(cfg(), 100);
    assert_eq!(r.step(105), 105);
    // Down: 3 away with step 3 lands exactly on target.
    let mut r = Ramp::new(cfg(), 105);
    assert_eq!(r.step(102), 102);
}

#[test]
fn deadband_holds_small_changes() {
    let mut r = Ramp::new(cfg(), 100);
    assert_eq!(r.step(102), 100);
    assert_eq!(r.step(98), 100);
    // At exactly the deadband it moves.
    assert_eq!(r.step(103), 103);
}

#[test]
fn reaches_target_over_many_ticks() {
    let mut r = Ramp::new(cfg(), 80);
    let mut last = 0;
    for _ in 0..30 {
        last = r.step(255);
    }
    assert_eq!(last, 255);
}

#[test]
fn low_target_clamps_to_floor() {
    let mut r = Ramp::new(cfg(), 70);
    // Raw target 20 is below min_pwm 60 → floor, approached by ramp.
    assert_eq!(r.step(20), 67);
    for _ in 0..10 {
        r.step(20);
    }
    // Settles within the deadband of the floor and never below it.
    assert!(r.current() >= 60 && r.current() <= 62);
    assert!(r.step(0) >= 60);
}

#[test]
fn starting_below_the_floor_recovers_to_it() {
    // The initial pwm is whatever firmware left behind; even if that reads
    // low, one step lands at/above the floor.
    let mut r = Ramp::new(cfg(), 0);
    assert!(r.step(70) >= 60);
}

#[test]
fn deadband_cannot_hold_a_value_below_the_floor() {
    // Firmware left the fan at 58; floor 60 is within the deadband of 58,
    // but "close enough" never applies below the floor.
    let mut r = Ramp::new(cfg(), 58);
    assert_eq!(r.step(20), 60, "recovers to the floor, not held at 58");
    // At/above the floor the deadband behaves as usual again.
    assert_eq!(r.step(61), 60);
}

#[test]
fn offset_shifts_and_clamps() {
    assert_eq!(apply_offset(100, 20), 120);
    assert_eq!(apply_offset(100, -30), 70);
    assert_eq!(apply_offset(250, 20), 255, "clamps at the top");
    assert_eq!(apply_offset(10, -50), 0, "clamps at the bottom, not the floor");
}

#[test]
fn saturates_at_255() {
    let mut r = Ramp::new(
        RampConfig {
            max_step_up: 200,
            ..cfg()
        },
        250,
    );
    assert_eq!(r.step(255), 255);
    assert_eq!(r.step(255), 255);
}

#[test]
fn step_stays_within_floor_and_full_for_every_target() {
    for start in [0u8, 30, 59, 60, 61, 128, 200, 255] {
        for target in [0u8, 20, 60, 100, 254, 255] {
            let mut r = Ramp::new(cfg(), start);
            let out = r.step(target);
            assert!(out >= 60, "{start} -> {target} gave {out}");
            assert_eq!(r.current(), out);
        }
    }
}

#[test]
fn rate_limit_bounds_each_tick_above_the_floor() {
    let mut r = Ramp::new(cfg(), 150);
    let up = r.step(255);
    assert!(up <= 160);
    let down = r.step(60);
    assert!(down + 3 >= up);
}

#[test]
fn zero_offset_is_identity() {
    for raw in [0u8, 1, 128, 255] {
        assert_eq!(apply_offset(raw, 0), raw);
    }
    assert_eq!(apply_offset(0, -255), 0);
    assert_eq!(apply_offset(255, 255), 255);
}

#[test]
fn ramp_settles_within_256_ticks_and_stays() {
    for (start, target) in [(0u8, 255u8), (255, 0), (80, 61), (10, 200)] {
        let c = RampConfig { min_pwm: 60, max_step_up: 1, max_step_down: 1, deadband: 3 };
        let mut r = Ramp::new(c, start);
        let mut last = 0;
        for _ in 0..256 {
            last = r.step(target);
        }
        let desired = target.max(60);
        assert!(last >= 60);
        assert!(last.abs_diff(desired) < 3);
        assert_eq!(r.step(target), last);
        assert_eq!(r.step(target), last);
    }
}
