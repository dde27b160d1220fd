use fand::control::{
    channel_tick, clamp_ttl, needs_write, override_survives, plan_override, pwm_index, resolve_target, BelowFloor, ChannelMode,
    Override, TickTarget, MAX_OVERRIDE_TTL_S,
};
use fand::engine::{missing_from, needs_nvml, probe_ok, ramp_config, rebound_channel, referenced_chips, reload_plan, union_paths, used_sensors, ReloadStep};
use fand::config::{ChannelConfig, Config, CurveConfig, DaemonConfig, GraphCurve, HwmonSensor, MixCurve, MixFunction, NvmlSensor, SensorConfig};
use fand::eval::CurvePlan;
use fand::failsafe::{FailsafeGuard, FIRMWARE_AUTO};
use fand::ramp::{Ramp, RampConfig};
use fand::trigger::NANOS_PER_SECOND;

const S: u64 = NANOS_PER_SECOND;

fn graph_on(sensor: &str) -> CurveConfig {
    CurveConfig::Graph(GraphCurve {
        sensor: sensor.to_string(),
        points: vec![(40, 80), (70, 200)],
        hysteresis_up_in_range: true,
        hysteresis_down_in_range: true,
        response_seconds: 0,
        ignore_hysteresis_at_extremes: true,
    })
}

fn mix_of(members: &[&str]) -> CurveConfig {
    CurveConfig::Mix(MixCurve { function: MixFunction::Max, curves: members.iter().map(|m| m.to_string()).collect() })
}

#[test]
fn override_below_floor_is_refused() {
    assert_eq!(plan_override(50, 60, 70, 0), Err(BelowFloor { pwm: 50, floor: 70 }));
}

#[test]
fn override_ttl_is_clamped_and_stamped() {
    assert_eq!(clamp_ttl(0), 1);
    assert_eq!(clamp_ttl(30), 30);
    assert_eq!(clamp_ttl(99_999), MAX_OVERRIDE_TTL_S);
    let (o, ttl) = plan_override(200, 0, 70, 10 * S).unwrap();
    assert_eq!(ttl, 1);
    assert_eq!(o, Override { pwm: 200, expires_at: 11 * S });
    let (o, ttl) = plan_override(70, 7200, 70, 0).unwrap();
    assert_eq!(ttl, 3600);
    assert_eq!(o.expires_at, 3600 * S);
}

#[test]
fn live_override_pins_the_ramp_target() {
    let o = Override { pwm: 200, expires_at: 30 * S };
    assert_eq!(
        resolve_target(Some(o), 120, 0),
        TickTarget { ramp_target: 200, mode: ChannelMode::Override, override_remaining_s: Some(30), expired: false }
    );
    // Less than a second left still reports one.
    let t = resolve_target(Some(o), 120, 30 * S - 1);
    assert_eq!(t.override_remaining_s, Some(1));
}

#[test]
fn expired_override_hands_back_to_the_curve_on_the_same_tick() {
    let o = Override { pwm: 200, expires_at: 30 * S };
    assert_eq!(
        resolve_target(Some(o), 120, 30 * S),
        TickTarget { ramp_target: 120, mode: ChannelMode::Curve, override_remaining_s: None, expired: true }
    );
    assert_eq!(
        resolve_target(None, 120, 0),
        TickTarget { ramp_target: 120, mode: ChannelMode::Curve, override_remaining_s: None, expired: false }
    );
    assert_eq!(ChannelMode::Curve.as_str(), "curve");
    assert_eq!(ChannelMode::Override.as_str(), "override");
}

#[test]
fn only_changed_duties_are_written() {
    assert!(needs_write(None, 100));
    assert!(needs_write(Some(99), 100));
    assert!(!needs_write(Some(100), 100));
}

#[test]
fn overrides_survive_a_reload_only_above_the_new_floor() {
    assert!(override_survives(80, Some(80)));
    assert!(!override_survives(79, Some(80)));
    assert!(!override_survives(200, None));
}

#[test]
fn pwm_index_reads_the_header_number() {
    assert_eq!(pwm_index("pwm2"), Some(2));
    assert_eq!(pwm_index("pwm01"), Some(1));
    assert_eq!(pwm_index("pwm"), None);
    assert_eq!(pwm_index("fan2"), None);
    assert_eq!(pwm_index("pwm4294967296"), None);
}

fn chan(hwmon: &str) -> ChannelConfig {
    ChannelConfig {
        hwmon_name: hwmon.to_string(),
        curve: "c".to_string(),
        min_pwm: 80,
        smoothing_seconds: 5,
        max_step_up: 10,
        max_step_down: 3,
        deadband: 3,
        offset_pwm: 0,
    }
}

#[test]
fn referenced_chips_are_listed_once() {
    let cfg = Config {
        daemon: DaemonConfig { tick_seconds: 2 },
        sensors: vec![
            (
                "cpu".to_string(),
                SensorConfig::Hwmon(HwmonSensor { hwmon_name: "k10temp".to_string(), input: "temp1_input".to_string() }),
            ),
            ("gpu".to_string(), SensorConfig::Nvml(NvmlSensor { device_index: 0 })),
            (
                "board".to_string(),
                SensorConfig::Hwmon(HwmonSensor { hwmon_name: "nct6799".to_string(), input: "temp2_input".to_string() }),
            ),
        ],
        curves: vec![],
        channels: vec![("pwm1".to_string(), chan("nct6799")), ("pwm2".to_string(), chan("nct6799"))],
    };
    let all = vec!["cpu".to_string(), "gpu".to_string(), "board".to_string()];
    let mut chips = referenced_chips(&cfg, &all);
    chips.sort();
    assert_eq!(chips, vec!["k10temp".to_string(), "nct6799".to_string()]);
    assert!(needs_nvml(&cfg, &all));
    let no_gpu = Config { sensors: vec![cfg.sensors[0].clone()], ..cfg.clone() };
    assert!(!needs_nvml(&no_gpu, &all));
}

#[test]
fn unused_sensors_need_no_chip_and_no_nvml() {
    let cfg = Config {
        daemon: DaemonConfig { tick_seconds: 2 },
        sensors: vec![
            (
                "cpu".to_string(),
                SensorConfig::Hwmon(HwmonSensor { hwmon_name: "k10temp".to_string(), input: "temp1_input".to_string() }),
            ),
            ("gpu".to_string(), SensorConfig::Nvml(NvmlSensor { device_index: 0 })),
        ],
        curves: vec![],
        channels: vec![("pwm1".to_string(), chan("nct6799"))],
    };
    assert_eq!(referenced_chips(&cfg, &vec![]), vec!["nct6799".to_string()]);
    assert!(!needs_nvml(&cfg, &vec!["cpu".to_string()]));
    let mut chips = referenced_chips(&cfg, &vec!["cpu".to_string()]);
    chips.sort();
    assert_eq!(chips, vec!["k10temp".to_string(), "nct6799".to_string()]);
}

#[test]
fn used_sensors_are_what_the_plans_read() {
    let curves = vec![
        ("c".to_string(), graph_on("cpu")),
        ("g".to_string(), graph_on("gpu")),
        ("m".to_string(), mix_of(&["c", "g"])),
        ("unused".to_string(), graph_on("board")),
    ];
    let p1 = CurvePlan::build(&curves, &"m".to_string()).unwrap();
    let p2 = CurvePlan::build(&curves, &"c".to_string()).unwrap();
    let mut used = used_sensors(&vec![p1, p2]);
    used.sort();
    assert_eq!(used, vec!["cpu".to_string(), "gpu".to_string()]);
}

#[test]
fn dead_header_is_refused_unless_already_driven() {
    let controlled = vec!["pwm2".to_string()];
    assert!(probe_ok(789, &"pwm1".to_string(), &controlled));
    assert!(!probe_ok(0, &"pwm1".to_string(), &controlled));
    assert!(probe_ok(0, &"pwm2".to_string(), &controlled));
}

#[test]
fn reload_takes_over_added_and_hands_back_dropped_channels() {
    let old = vec!["pwm1".to_string(), "pwm2".to_string()];
    let new = vec!["pwm2".to_string(), "pwm3".to_string(), "pwm4".to_string()];
    assert_eq!(missing_from(&new, &old), vec![1, 2]);
    assert_eq!(missing_from(&old, &new), vec![0]);
    assert!(missing_from(&old, &old).is_empty());
}

#[test]
fn failsafe_union_covers_old_and_new_files_once() {
    let old = vec!["/h/pwm1_enable".to_string(), "/h/pwm2_enable".to_string()];
    let new = vec!["/h/pwm2_enable".to_string(), "/h/pwm3_enable".to_string(), "/h/pwm3_enable".to_string()];
    assert_eq!(
        union_paths(&old, &new),
        vec!["/h/pwm1_enable".to_string(), "/h/pwm2_enable".to_string(), "/h/pwm3_enable".to_string()]
    );
}

#[test]
fn ramp_config_copies_the_channel_knobs() {
    assert_eq!(
        ramp_config(&chan("nct6799")),
        RampConfig { min_pwm: 80, max_step_up: 10, max_step_down: 3, deadband: 3 }
    );
}

#[test]
fn guard_keeps_its_restore_list() {
    let g = FailsafeGuard::new(vec!["/h/pwm1_enable".to_string()]);
    assert_eq!(g.enable_paths(), &vec!["/h/pwm1_enable".to_string()]);
    assert_eq!(FIRMWARE_AUTO, "5");
}

#[test]
fn channel_tick_offsets_overrides_ramps_and_writes_once() {
    let cfg = RampConfig { min_pwm: 60, max_step_up: 10, max_step_down: 3, deadband: 3 };
    let mut ramp = Ramp::new(cfg, 100);
    let mut last = None;
    // Curve asks 120, offset -10: the ramp chases 110 and lands there.
    let t = channel_tick(&mut ramp, &mut last, None, 120, -10, 0);
    assert_eq!((t.pwm, t.write, t.target.ramp_target), (110, true, 110));
    assert_eq!(last, Some(110));
    // Same again: nothing new to write.
    let t = channel_tick(&mut ramp, &mut last, None, 120, -10, S);
    assert_eq!((t.pwm, t.write), (110, false));
    // A live override pins the target; the ramp still rate-limits.
    let o = Override { pwm: 200, expires_at: 10 * S };
    let t = channel_tick(&mut ramp, &mut last, Some(o), 120, -10, 2 * S);
    assert_eq!((t.pwm, t.write, t.target.mode), (120, true, ChannelMode::Override));
    // Expired: reported, and the curve takes over on the same tick.
    let t = channel_tick(&mut ramp, &mut last, Some(o), 120, -10, 10 * S);
    assert!(t.target.expired);
    assert_eq!(t.target.ramp_target, 110);
}

#[test]
fn reload_refuses_rebinding_a_kept_channel() {
    let b = |n: &str, c: &str| (n.to_string(), c.to_string());
    let old = vec![b("pwm1", "nct6799"), b("pwm2", "nct6799")];
    assert_eq!(rebound_channel(&old, &vec![b("pwm2", "nct6799"), b("pwm3", "it8686")]), None);
    assert_eq!(rebound_channel(&old, &vec![b("pwm1", "nct6799"), b("pwm2", "it8686")]), Some(1));
}

#[test]
fn reload_plan_widens_first_and_narrows_last() {
    let s = |v: &[&str]| v.iter().map(|x| x.to_string()).collect::<Vec<String>>();
    let plan = reload_plan(
        &s(&["pwm1", "pwm2"]),
        &s(&["/h/pwm1_enable", "/h/pwm2_enable"]),
        &s(&["pwm2", "pwm3"]),
        &s(&["/h/pwm2_enable", "/h/pwm3_enable"]),
    );
    assert_eq!(plan.len(), 4);
    assert!(matches!(&plan[0], ReloadStep::Failsafe(u)
        if *u == s(&["/h/pwm1_enable", "/h/pwm2_enable", "/h/pwm3_enable"])));
    assert!(matches!(plan[1], ReloadStep::TakeManual(1)));
    assert!(matches!(plan[2], ReloadStep::HandBack(0)));
    assert!(matches!(&plan[3], ReloadStep::Failsafe(n) if *n == s(&["/h/pwm2_enable", "/h/pwm3_enable"])));
}

#[test]
fn rollback_undoes_takeovers_then_restores_old_list() {
    let old = vec!["/h/pwm1_enable".to_string()];
    let plan = fand::engine::rollback_plan(&vec![2, 0], &old);
    assert_eq!(plan.len(), 3);
    assert!(matches!(plan[0], ReloadStep::UndoManual(2)));
    assert!(matches!(plan[1], ReloadStep::UndoManual(0)));
    assert!(matches!(&plan[2], ReloadStep::Failsafe(p) if *p == old));
}

#[test]
fn curve_set_needs_a_sensor_only_for_a_new_curve() {
    assert_eq!(fand::cli::curve_set_action(true, false), fand::cli::CurveSetAction::ReplacePoints);
    assert_eq!(fand::cli::curve_set_action(true, true), fand::cli::CurveSetAction::ReplacePoints);
    assert_eq!(fand::cli::curve_set_action(false, true), fand::cli::CurveSetAction::CreateGraph);
    assert_eq!(fand::cli::curve_set_action(false, false), fand::cli::CurveSetAction::NeedsSensor);
}
