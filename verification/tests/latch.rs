use fand::hysteresis::{FilterCore, Sample};
use fand::trigger::{dwell_elapsed, Latch, NANOS_PER_SECOND};

const S: u64 = NANOS_PER_SECOND;

/// Thresholds of the scenarios below: idle at or below 40 °C, load at or
/// above 60 °C.
fn feed(l: &mut Latch, temp: i32, now: u64) -> u8 {
    l.apply(temp >= 60, temp <= 40, now)
}

#[test]
fn first_sample_below_load_starts_idle() {
    let mut l = Latch::new(90, 200, 0);
    assert_eq!(feed(&mut l, 50, 0), 90);
}

#[test]
fn first_sample_at_load_starts_loaded() {
    let mut l = Latch::new(90, 200, 0);
    assert_eq!(feed(&mut l, 65, 0), 200);
}

#[test]
fn latches_up_at_load_temp_and_holds_across_deadband() {
    let mut l = Latch::new(90, 200, 0);
    assert_eq!(feed(&mut l, 35, 0), 90, "starts idle");
    assert_eq!(feed(&mut l, 55, 0), 90, "deadband: still idle");
    assert_eq!(feed(&mut l, 60, 0), 200, "reaches load_temp: flips");
    assert_eq!(feed(&mut l, 45, 0), 200, "deadband: holds load");
    assert_eq!(feed(&mut l, 40, 0), 90, "reaches idle_temp: flips back");
}

#[test]
fn crossing_must_survive_the_response_dwell() {
    let mut l = Latch::new(90, 200, 5);
    let base = 1_000 * S;
    feed(&mut l, 35, base);
    assert_eq!(feed(&mut l, 65, base), 90, "dwell started, not flipped yet");
    assert_eq!(feed(&mut l, 65, base + 2 * S), 90, "2s < 5s");
    assert_eq!(feed(&mut l, 65, base + 6 * S), 200, "6s >= 5s: flips");
}

#[test]
fn retreat_before_dwell_elapses_resets_the_timer() {
    let mut l = Latch::new(90, 200, 5);
    let base = 1_000 * S;
    feed(&mut l, 35, base);
    feed(&mut l, 65, base);
    assert_eq!(feed(&mut l, 50, base + 2 * S), 90, "back in deadband: cancels");
    assert_eq!(feed(&mut l, 65, base + 6 * S), 90, "timer restarted at 6s");
    assert_eq!(feed(&mut l, 65, base + 12 * S), 200);
}

#[test]
fn zero_response_flips_immediately() {
    let mut l = Latch::new(90, 200, 0);
    feed(&mut l, 35, 0);
    assert_eq!(feed(&mut l, 60, 0), 200, "no dwell: flips same tick");
}

#[test]
fn dwell_counts_whole_seconds_and_tolerates_a_clock_going_back() {
    assert!(dwell_elapsed(5 * S, 0, 5));
    assert!(!dwell_elapsed(5 * S - 1, 0, 5));
    assert!(dwell_elapsed(0, 0, 0));
    assert!(!dwell_elapsed(0, 3 * S, 1));
}

fn inside() -> Sample {
    Sample { beyond_endpoints: false, rising: false, falling: false }
}

fn up() -> Sample {
    Sample { beyond_endpoints: false, rising: true, falling: false }
}

fn down() -> Sample {
    Sample { beyond_endpoints: false, rising: false, falling: true }
}

#[test]
fn first_sample_passes_through() {
    let mut f = FilterCore::new(5, true);
    assert!(f.apply(inside(), 0));
}

#[test]
fn changes_inside_the_band_are_held() {
    let mut f = FilterCore::new(0, true);
    f.apply(inside(), 0);
    assert!(!f.apply(inside(), S));
}

#[test]
fn change_beyond_threshold_accepted_without_response_time() {
    let mut f = FilterCore::new(0, true);
    f.apply(inside(), 0);
    assert!(f.apply(up(), S));
    assert!(f.apply(down(), 2 * S));
}

#[test]
fn excursion_must_survive_the_dwell() {
    let mut f = FilterCore::new(5, true);
    f.apply(inside(), 0);
    assert!(!f.apply(up(), S));
    assert!(!f.apply(up(), 3 * S));
    assert!(f.apply(up(), 6 * S));
}

#[test]
fn retreat_into_band_resets_the_dwell() {
    let mut f = FilterCore::new(5, true);
    f.apply(inside(), 0);
    assert!(!f.apply(up(), S));
    assert!(!f.apply(inside(), 3 * S));
    assert!(!f.apply(up(), 4 * S));
    assert!(!f.apply(up(), 8 * S));
    assert!(f.apply(up(), 9 * S));
}

#[test]
fn direction_flip_resets_the_dwell() {
    let mut f = FilterCore::new(5, true);
    f.apply(inside(), 0);
    assert!(!f.apply(up(), S));
    assert!(!f.apply(down(), 4 * S));
    assert!(!f.apply(down(), 8 * S));
    assert!(f.apply(down(), 9 * S));
}

#[test]
fn extremes_bypass_hysteresis_and_dwell() {
    let mut f = FilterCore::new(30, true);
    f.apply(inside(), 0);
    assert!(f.apply(Sample { beyond_endpoints: true, rising: false, falling: false }, S));
}

#[test]
fn extremes_respected_when_bypass_disabled() {
    let mut f = FilterCore::new(30, false);
    f.apply(inside(), 0);
    assert!(!f.apply(Sample { beyond_endpoints: true, rising: true, falling: false }, S));
}

#[test]
fn latch_flips_only_after_sustained_crossing() {
    let mut l = Latch::new(60, 200, 2);
    assert_eq!(l.apply(false, false, 0), 60);
    assert_eq!(l.apply(true, false, S), 60);
    // Back between the thresholds: the pending dwell is cancelled.
    assert_eq!(l.apply(false, false, 2 * S), 60);
    assert_eq!(l.apply(true, false, 3 * S), 60);
    assert_eq!(l.apply(true, false, 4 * S), 60);
    assert_eq!(l.apply(true, false, 5 * S), 200);
    assert_eq!(l.apply(false, false, 6 * S), 200);
}
