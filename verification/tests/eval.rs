use fand::config::{CurveConfig, FlatCurve, GraphCurve, MixCurve, MixFunction, TriggerCurve};
use fand::curve_graph::{detect_mix_cycles, reaches_trigger};
use fand::eval::{combine, curve_points, CurveError, CurvePlan, PlanNode, TreeError};

fn graph(sensor: &str, points: &[(i32, u16)]) -> CurveConfig {
    CurveConfig::Graph(GraphCurve {
        sensor: sensor.to_string(),
        points: points.to_vec(),
        hysteresis_up_in_range: true,
        hysteresis_down_in_range: true,
        response_seconds: 0,
        ignore_hysteresis_at_extremes: true,
    })
}

fn mix(function: MixFunction, members: &[&str]) -> CurveConfig {
    CurveConfig::Mix(MixCurve { function, curves: members.iter().map(|m| m.to_string()).collect() })
}

fn case_curves() -> Vec<(String, CurveConfig)> {
    vec![
        ("cpu_c".to_string(), graph("cpu", &[(40, 80), (70, 200)])),
        ("gpu_c".to_string(), graph("gpu", &[(50, 60), (80, 255)])),
        ("case".to_string(), mix(MixFunction::Max, &["cpu_c", "gpu_c"])),
        ("quiet".to_string(), CurveConfig::Flat(FlatCurve { pwm: 128 })),
    ]
}

#[test]
fn curve_points_narrows_valid_points() {
    assert_eq!(curve_points(&vec![(40, 80), (70, 255)]), Ok(vec![(40, 80u8), (70, 255u8)]));
}

#[test]
fn curve_points_reports_the_first_problem() {
    assert_eq!(curve_points(&vec![]), Err(CurveError::Empty));
    assert_eq!(curve_points(&vec![(40, 80), (40, 90)]), Err(CurveError::NotStrictlyIncreasing(1)));
    // An out-of-range pwm is reported before an ordering problem.
    assert_eq!(
        curve_points(&vec![(70, 80), (40, 300)]),
        Err(CurveError::PwmOutOfRange { index: 1, pwm: 300 })
    );
}

#[test]
fn flat_plan_is_a_single_node() {
    let plan = CurvePlan::build(&case_curves(), &"quiet".to_string()).unwrap();
    assert_eq!(plan.nodes, vec![PlanNode::Flat { pwm: 128 }]);
    assert!(plan.sensors().is_empty());
}

#[test]
fn mix_plan_lists_members_before_the_root() {
    let plan = CurvePlan::build(&case_curves(), &"case".to_string()).unwrap();
    assert_eq!(plan.nodes.len(), 3);
    match &plan.nodes[2] {
        PlanNode::Mix { function, members } => {
            assert_eq!(*function, MixFunction::Max);
            assert_eq!(members, &vec![0, 1]);
        }
        other => panic!("root should be the mix, got {other:?}"),
    }
    let mut sensors = plan.sensors();
    sensors.sort();
    assert_eq!(sensors, vec!["cpu".to_string(), "gpu".to_string()]);
}

#[test]
fn unknown_curve_is_a_build_error() {
    assert_eq!(
        CurvePlan::build(&case_curves(), &"nope".to_string()),
        Err(TreeError::UnknownCurve("nope".to_string()))
    );
}

#[test]
fn bad_members_are_build_errors() {
    let mut curves = case_curves();
    curves.push(("loud".to_string(), CurveConfig::Flat(FlatCurve { pwm: 300 })));
    curves.push(("m".to_string(), mix(MixFunction::Min, &["cpu_c", "loud"])));
    assert_eq!(
        CurvePlan::build(&curves, &"m".to_string()),
        Err(TreeError::FlatPwmOutOfRange { curve: "loud".to_string(), pwm: 300 })
    );
    curves.push(("bad".to_string(), graph("cpu", &[(50, 10), (40, 20)])));
    assert_eq!(
        CurvePlan::build(&curves, &"bad".to_string()),
        Err(TreeError::BadCurve { curve: "bad".to_string(), source: CurveError::NotStrictlyIncreasing(1) })
    );
    curves.push((
        "t".to_string(),
        CurveConfig::Trigger(TriggerCurve {
            sensor: "cpu".to_string(),
            thresholds_ordered: true,
            idle_pwm: 90,
            load_pwm: 256,
            response_seconds: 0,
        }),
    ));
    assert_eq!(
        CurvePlan::build(&curves, &"t".to_string()),
        Err(TreeError::TriggerPwmOutOfRange { curve: "t".to_string(), pwm: 256 })
    );
}

#[test]
fn cyclic_config_hits_depth_cap_instead_of_recursing_forever() {
    let curves = vec![
        ("a".to_string(), mix(MixFunction::Max, &["b"])),
        ("b".to_string(), mix(MixFunction::Max, &["a"])),
    ];
    assert_eq!(CurvePlan::build(&curves, &"a".to_string()), Err(TreeError::TooDeep));
    // The walk reports the curve where it closed the loop.
    assert_eq!(detect_mix_cycles(&curves), vec!["a".to_string()]);
}

#[test]
fn acyclic_table_reports_no_cycle() {
    assert!(detect_mix_cycles(&case_curves()).is_empty());
}

#[test]
fn trigger_reachability_follows_mixes() {
    let mut curves = case_curves();
    curves.push((
        "t".to_string(),
        CurveConfig::Trigger(TriggerCurve {
            sensor: "cpu".to_string(),
            thresholds_ordered: true,
            idle_pwm: 90,
            load_pwm: 200,
            response_seconds: 0,
        }),
    ));
    curves.push(("outer".to_string(), mix(MixFunction::Max, &["case", "t"])));
    assert!(reaches_trigger(&curves, &"t".to_string()));
    assert!(reaches_trigger(&curves, &"outer".to_string()));
    assert!(!reaches_trigger(&curves, &"case".to_string()));
    assert!(!reaches_trigger(&curves, &"missing".to_string()));
}

#[test]
fn min_and_average_mixes() {
    let outs = vec![138u8, 224];
    assert_eq!(combine(MixFunction::Min, &outs), 138);
    assert_eq!(combine(MixFunction::Average, &outs), 181);
    assert_eq!(combine(MixFunction::Max, &outs), 224);
}

#[test]
fn average_rounds_half_up_and_empty_mix_is_zero() {
    assert_eq!(combine(MixFunction::Average, &vec![1, 2]), 2);
    assert_eq!(combine(MixFunction::Average, &vec![255, 255, 255]), 255);
    assert_eq!(combine(MixFunction::Max, &vec![]), 0);
}

#[test]
fn single_member_mix_equals_the_member() {
    for f in [MixFunction::Max, MixFunction::Min, MixFunction::Average] {
        assert_eq!(combine(f, &vec![77]), 77);
    }
}
