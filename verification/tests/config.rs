use fand::config::{
    default_deadband, default_min_pwm, default_step_down, default_step_up, default_tick, default_true, is_pwm_name,
    ChannelConfig, Config, CurveConfig, DaemonConfig, FlatCurve, GraphCurve, HwmonSensor, MixCurve, MixFunction,
    NvmlSensor, SensorConfig, TriggerCurve, ValidationError,
};

fn graph(sensor: &str, points: &[(i32, u16)]) -> CurveConfig {
    CurveConfig::Graph(GraphCurve {
        sensor: sensor.to_string(),
        points: points.to_vec(),
        hysteresis_up_in_range: true,
        hysteresis_down_in_range: true,
        response_seconds: 0,
        ignore_hysteresis_at_extremes: true,
    })
}

fn mix(members: &[&str]) -> CurveConfig {
    CurveConfig::Mix(MixCurve {
        function: MixFunction::Max,
        curves: members.iter().map(|m| m.to_string()).collect(),
    })
}

fn trigger(idle_pwm: u16, load_pwm: u16) -> CurveConfig {
    CurveConfig::Trigger(TriggerCurve {
        sensor: "cpu".to_string(),
        thresholds_ordered: true,
        idle_pwm,
        load_pwm,
        response_seconds: 0,
    })
}

fn channel(curve: &str, min_pwm: u8) -> ChannelConfig {
    ChannelConfig {
        hwmon_name: "nct6799".to_string(),
        curve: curve.to_string(),
        min_pwm,
        smoothing_seconds: 5,
        max_step_up: default_step_up(),
        max_step_down: default_step_down(),
        deadband: default_deadband(),
        offset_pwm: 0,
    }
}

/// A minimal valid config the rejection tests below mutate.
fn base() -> Config {
    Config {
        daemon: DaemonConfig::default(),
        sensors: vec![(
            "cpu".to_string(),
            SensorConfig::Hwmon(HwmonSensor { hwmon_name: "k10temp".to_string(), input: "temp1_input".to_string() }),
        )],
        curves: vec![("c".to_string(), graph("cpu", &[(40, 80), (70, 200)]))],
        channels: vec![("pwm2".to_string(), channel("c", 70))],
    }
}

fn errors_of(cfg: &Config) -> Vec<ValidationError> {
    match cfg.validate() {
        Err(errs) => errs,
        Ok(()) => panic!("expected validation errors"),
    }
}

#[test]
fn defaults_match_the_documented_values() {
    assert_eq!(default_tick(), 2);
    assert_eq!(default_min_pwm(), 60);
    assert_eq!(default_step_up(), 10);
    assert_eq!(default_step_down(), 3);
    assert_eq!(default_deadband(), 3);
    assert!(default_true());
    assert_eq!(DaemonConfig::default().tick_seconds, 2);
    assert_eq!(MixFunction::default(), MixFunction::Max);
    assert_eq!(MixFunction::Average.as_str(), "average");
    assert_eq!(MixFunction::Min.as_str(), "min");
    assert_eq!(MixFunction::Max.as_str(), "max");
}

#[test]
fn base_config_is_valid() {
    assert_eq!(base().validate(), Ok(()));
}

#[test]
fn zero_tick_rejected() {
    let mut cfg = base();
    cfg.daemon.tick_seconds = 0;
    assert_eq!(errors_of(&cfg), vec![ValidationError::TickZero]);
}

#[test]
fn config_unsorted_curve_rejected() {
    let mut cfg = base();
    cfg.curves[0].1 = graph("cpu", &[(70, 80), (40, 200)]);
    assert_eq!(errors_of(&cfg), vec![ValidationError::CurveUnsorted { curve: "c".to_string(), index: 1 }]);
}

#[test]
fn duplicate_temp_rejected() {
    let mut cfg = base();
    cfg.curves[0].1 = graph("cpu", &[(40, 80), (40, 200)]);
    assert!(errors_of(&cfg).iter().any(|e| matches!(e, ValidationError::CurveUnsorted { .. })));
}

#[test]
fn pwm_out_of_range_rejected() {
    let mut cfg = base();
    cfg.curves[0].1 = graph("cpu", &[(40, 80), (70, 300)]);
    assert_eq!(
        errors_of(&cfg),
        vec![ValidationError::PwmOutOfRange { curve: "c".to_string(), index: 1, pwm: 300 }]
    );
}

#[test]
fn single_point_curve_rejected() {
    let mut cfg = base();
    cfg.curves[0].1 = graph("cpu", &[(40, 80)]);
    assert_eq!(errors_of(&cfg), vec![ValidationError::CurveTooFewPoints("c".to_string())]);
}

#[test]
fn graph_unknown_sensor_rejected() {
    let mut cfg = base();
    cfg.curves[0].1 = graph("gpu", &[(40, 80), (70, 200)]);
    assert_eq!(
        errors_of(&cfg),
        vec![ValidationError::CurveUnknownSensor { curve: "c".to_string(), sensor: "gpu".to_string() }]
    );
}

#[test]
fn bad_hysteresis_rejected() {
    let mut cfg = base();
    cfg.curves[0].1 = CurveConfig::Graph(GraphCurve {
        sensor: "cpu".to_string(),
        points: vec![(40, 80), (70, 200)],
        hysteresis_up_in_range: false,
        hysteresis_down_in_range: true,
        response_seconds: 601,
        ignore_hysteresis_at_extremes: true,
    });
    assert_eq!(
        errors_of(&cfg),
        vec![
            ValidationError::BadHysteresis { curve: "c".to_string(), field: "hysteresis_up", max: 20 },
            ValidationError::BadHysteresis { curve: "c".to_string(), field: "response_seconds", max: 600 },
        ]
    );
}

#[test]
fn channel_unknown_curve_rejected() {
    let mut cfg = base();
    cfg.channels[0].1.curve = "nope".to_string();
    assert_eq!(
        errors_of(&cfg),
        vec![ValidationError::UnknownCurve { channel: "pwm2".to_string(), curve: "nope".to_string() }]
    );
}

#[test]
fn mix_curve_accepted_and_channel_can_bind_it() {
    let mut cfg = base();
    cfg.curves.push(("d".to_string(), graph("cpu", &[(30, 70), (80, 255)])));
    cfg.curves.push(("m".to_string(), mix(&["c", "d"])));
    cfg.channels[0].1.curve = "m".to_string();
    assert_eq!(cfg.validate(), Ok(()));
}

#[test]
fn empty_mix_rejected() {
    let mut cfg = base();
    cfg.curves.push(("m".to_string(), mix(&[])));
    assert_eq!(errors_of(&cfg), vec![ValidationError::EmptyMix { curve: "m".to_string() }]);
}

#[test]
fn mix_unknown_member_rejected() {
    let mut cfg = base();
    cfg.curves.push(("m".to_string(), mix(&["c", "ghost"])));
    assert_eq!(
        errors_of(&cfg),
        vec![ValidationError::MixUnknownCurve { curve: "m".to_string(), member: "ghost".to_string() }]
    );
}

#[test]
fn duplicate_mix_member_rejected() {
    let mut cfg = base();
    cfg.curves.push(("m".to_string(), mix(&["c", "c"])));
    assert_eq!(
        errors_of(&cfg),
        vec![ValidationError::DuplicateMixMember { curve: "m".to_string(), member: "c".to_string() }]
    );
}

#[test]
fn self_referencing_mix_rejected() {
    let mut cfg = base();
    cfg.curves.push(("m".to_string(), mix(&["m"])));
    assert_eq!(errors_of(&cfg), vec![ValidationError::MixCycle { curve: "m".to_string() }]);
}

#[test]
fn mutual_mix_cycle_rejected() {
    let mut cfg = base();
    cfg.curves.push(("a".to_string(), mix(&["b"])));
    cfg.curves.push(("b".to_string(), mix(&["a", "c"])));
    let errs = errors_of(&cfg);
    assert!(!errs.is_empty());
    assert!(errs.iter().all(|e| matches!(e, ValidationError::MixCycle { curve } if curve == "a" || curve == "b")));
}

#[test]
fn mix_of_mix_without_cycle_accepted() {
    let mut cfg = base();
    cfg.curves.push(("inner".to_string(), mix(&["c"])));
    cfg.curves.push(("outer".to_string(), mix(&["inner", "c"])));
    cfg.channels[0].1.curve = "outer".to_string();
    assert_eq!(cfg.validate(), Ok(()));
}

#[test]
fn flat_curve_accepted_and_range_checked() {
    let mut cfg = base();
    cfg.curves.push(("f".to_string(), CurveConfig::Flat(FlatCurve { pwm: 120 })));
    assert_eq!(cfg.validate(), Ok(()));
    cfg.curves[1].1 = CurveConfig::Flat(FlatCurve { pwm: 256 });
    assert_eq!(errors_of(&cfg), vec![ValidationError::FlatPwmOutOfRange { curve: "f".to_string(), pwm: 256 }]);
}

#[test]
fn trigger_unordered_thresholds_rejected() {
    let mut cfg = base();
    cfg.curves.push((
        "t".to_string(),
        CurveConfig::Trigger(TriggerCurve {
            sensor: "cpu".to_string(),
            thresholds_ordered: false,
            idle_pwm: 90,
            load_pwm: 200,
            response_seconds: 0,
        }),
    ));
    assert_eq!(errors_of(&cfg), vec![ValidationError::TriggerThresholdsUnordered { curve: "t".to_string() }]);
}

#[test]
fn trigger_pwm_out_of_range_rejected() {
    let mut cfg = base();
    cfg.curves.push(("t".to_string(), trigger(90, 300)));
    assert_eq!(
        errors_of(&cfg),
        vec![ValidationError::TriggerPwmOutOfRange { curve: "t".to_string(), field: "load", pwm: 300 }]
    );
}

#[test]
fn trigger_forbidden_on_pump_channel_directly_and_through_mix() {
    let mut cfg = base();
    cfg.curves.push(("t".to_string(), trigger(90, 200)));
    cfg.channels = vec![("pwm1".to_string(), channel("t", 80))];
    assert_eq!(
        errors_of(&cfg),
        vec![ValidationError::TriggerOnPumpChannel { channel: "pwm1".to_string(), curve: "t".to_string() }]
    );
    cfg.curves.push(("m".to_string(), mix(&["c", "t"])));
    cfg.channels[0].1.curve = "m".to_string();
    assert_eq!(
        errors_of(&cfg),
        vec![ValidationError::TriggerOnPumpChannel { channel: "pwm1".to_string(), curve: "m".to_string() }]
    );
}

#[test]
fn trigger_allowed_on_non_pump_channel() {
    let mut cfg = base();
    cfg.curves.push(("t".to_string(), trigger(90, 200)));
    cfg.channels[0].1.curve = "t".to_string();
    assert_eq!(cfg.validate(), Ok(()));
}

#[test]
fn offset_accepted_and_out_of_range_rejected() {
    let mut cfg = base();
    cfg.channels[0].1.offset_pwm = -20;
    assert_eq!(cfg.validate(), Ok(()));
    cfg.channels[0].1.offset_pwm = 400;
    assert_eq!(
        errors_of(&cfg),
        vec![ValidationError::OffsetOutOfRange { channel: "pwm2".to_string(), offset: 400 }]
    );
}

#[test]
fn min_pwm_below_floor_rejected() {
    let mut cfg = base();
    cfg.channels[0].1.min_pwm = 30;
    assert_eq!(
        errors_of(&cfg),
        vec![ValidationError::MinPwmBelowFloor { channel: "pwm2".to_string(), min_pwm: 30, floor: 60 }]
    );
}

#[test]
fn pump_channel_min_pwm_floor_is_80() {
    let mut cfg = base();
    cfg.channels[0].0 = "pwm1".to_string();
    assert_eq!(
        errors_of(&cfg),
        vec![ValidationError::MinPwmBelowPumpFloor { channel: "pwm1".to_string(), min_pwm: 70, floor: 80 }]
    );
    cfg.channels[0].1.min_pwm = 80;
    assert_eq!(cfg.validate(), Ok(()));
}

#[test]
fn zero_step_and_zero_smoothing_rejected() {
    let mut cfg = base();
    cfg.channels[0].1.max_step_down = 0;
    cfg.channels[0].1.smoothing_seconds = 0;
    assert_eq!(
        errors_of(&cfg),
        vec![
            ValidationError::ZeroStep { channel: "pwm2".to_string() },
            ValidationError::ZeroSmoothing { channel: "pwm2".to_string() },
        ]
    );
}

#[test]
fn bad_channel_name_rejected() {
    let mut cfg = base();
    cfg.channels[0].0 = "pmw2".to_string();
    assert_eq!(errors_of(&cfg), vec![ValidationError::BadChannelName { channel: "pmw2".to_string() }]);
}

#[test]
fn non_canonical_pwm_alias_rejected() {
    for name in ["pwm01", "pwm001", "pwm+1", "pwm 1", "pwm999999999999", "pwm"] {
        assert!(!is_pwm_name(name), "`{name}` must be rejected");
        let mut cfg = base();
        cfg.channels[0].0 = name.to_string();
        let errs = errors_of(&cfg);
        assert!(errs.iter().any(|e| matches!(e, ValidationError::BadChannelName { .. })));
        assert!(!errs.iter().any(|e| matches!(e, ValidationError::MinPwmBelowPumpFloor { .. })));
    }
    for name in ["pwm0", "pwm1", "pwm10", "pwm4294967295"] {
        assert!(is_pwm_name(name), "`{name}` is canonical");
    }
}

#[test]
fn validate_collects_multiple_errors() {
    let mut cfg = base();
    cfg.curves[0].1 = graph("gpu", &[(70, 80), (40, 300)]);
    assert_eq!(
        errors_of(&cfg),
        vec![
            ValidationError::CurveUnsorted { curve: "c".to_string(), index: 1 },
            ValidationError::PwmOutOfRange { curve: "c".to_string(), index: 1, pwm: 300 },
            ValidationError::CurveUnknownSensor { curve: "c".to_string(), sensor: "gpu".to_string() },
        ]
    );
}

#[test]
fn nvml_sensor_backs_a_curve() {
    let mut cfg = base();
    cfg.sensors.push(("gpu".to_string(), SensorConfig::Nvml(NvmlSensor { device_index: 0 })));
    cfg.curves[0].1 = graph("gpu", &[(40, 80), (70, 200)]);
    assert_eq!(cfg.validate(), Ok(()));
}

#[test]
fn validation_errors_read_as_messages() {
    assert_eq!(ValidationError::TickZero.message(), "daemon.tick_seconds must be >= 1");
    assert_eq!(
        ValidationError::PwmOutOfRange { curve: "c".to_string(), index: 1, pwm: 300 }.message(),
        "curve `c`: pwm 300 out of range 0-255 (point 1)"
    );
    assert_eq!(
        ValidationError::OffsetOutOfRange { channel: "pwm2".to_string(), offset: -400 }.message(),
        "channel `pwm2`: offset_pwm -400 out of range -255..=255"
    );
    assert_eq!(
        ValidationError::MinPwmBelowPumpFloor { channel: "pwm1".to_string(), min_pwm: 70, floor: 80 }.message(),
        "channel `pwm1`: min_pwm 70 is below the pump floor 80 (the AIO pump rides this header inline and must never slow past it)"
    );
    assert_eq!(
        ValidationError::BadHysteresis { curve: "c".to_string(), field: "hysteresis_up", max: 20 }.message(),
        "curve `c`: hysteresis_up must be a finite value in 0-20"
    );
}

#[test]
fn tables_in_map_order() {
    let mut cfg = base();
    assert!(cfg.has_map_order());
    cfg.curves.push(("a".to_string(), graph("cpu", &[(40, 80), (70, 200)])));
    assert!(!cfg.has_map_order(), "`a` after `c` is out of order");
    cfg.curves.swap(0, 1);
    assert!(cfg.has_map_order());
    cfg.curves.push(("c".to_string(), graph("cpu", &[(40, 80), (70, 200)])));
    assert!(!cfg.has_map_order(), "a repeated name is out of order");
    assert!(fand::config::name_before(&"pwm1".to_string(), &"pwm10".to_string()));
    assert!(fand::config::name_before(&"pwm10".to_string(), &"pwm2".to_string()));
    assert!(!fand::config::name_before(&"pwm2".to_string(), &"pwm2".to_string()));
}
