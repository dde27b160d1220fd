use fand::curve_edit::{
    add_mix_member, create_graph_curve, remove_curve, remove_mix_member, replace_curve_points, set_graph_sensor,
    CurveEditError,
};

const TOML: &str = "\
# top comment stays
[curves.cpu]
kind = \"graph\"
sensor = \"cpu\"
# curve comment stays
points = [[40, 80], [70, 200]]

[curves.gpu]
kind = \"graph\"
sensor = \"gpu\"
points = [[35, 70], [80, 255]] # trailing comment stays

# mix comment stays
[curves.case_mix]
kind = \"mix\"
function = \"max\"
curves = [\"cpu\", \"gpu\"]
";

#[test]
fn replace_curve_points_keeps_comments() {
    let out = replace_curve_points(TOML, "cpu", &[(30, 70), (60, 140), (85, 255)]).unwrap();
    assert!(out.contains("# top comment stays"));
    assert!(out.contains("# curve comment stays"));
    assert!(out.contains("# trailing comment stays"));
    assert!(out.contains("points = [[30, 70], [60, 140], [85, 255]]"));
    assert!(out.contains("[[35, 70], [80, 255]]"), "other curve untouched");
}

#[test]
fn replace_curve_points_rejects_missing_curve() {
    assert!(matches!(
        replace_curve_points(TOML, "nope", &[(30, 70)]),
        Err(CurveEditError::UnknownCurve(name)) if name == "nope"
    ));
}

#[test]
fn replace_curve_points_rejects_non_graph() {
    assert!(matches!(
        replace_curve_points(TOML, "case_mix", &[(30, 70)]),
        Err(CurveEditError::WrongKind { expected: "graph", .. })
    ));
}

#[test]
fn create_graph_curve_writes_kind_sensor_points() {
    let out = create_graph_curve(TOML, "extra", "cpu", &[(30, 70), (80, 255)]).unwrap();
    assert!(out.contains("[curves.extra]"));
    assert!(out.contains("kind = \"graph\""));
    assert!(out.contains("sensor = \"cpu\""));
    assert!(out.contains("points = [[30, 70], [80, 255]]"));
    assert!(out.contains("# top comment stays"));
}

#[test]
fn create_graph_curve_rejects_existing_name() {
    assert!(matches!(
        create_graph_curve(TOML, "cpu", "cpu", &[(30, 70)]),
        Err(CurveEditError::DuplicateCurve(name)) if name == "cpu"
    ));
}

#[test]
fn set_graph_sensor_rebinds() {
    let out = set_graph_sensor(TOML, "gpu", "cpu").unwrap();
    assert!(out.contains("[curves.gpu]"));
    assert!(!out.contains("sensor = \"gpu\""));
    assert!(out.contains("# trailing comment stays"));
}

#[test]
fn set_graph_sensor_rejects_mix() {
    assert!(matches!(set_graph_sensor(TOML, "case_mix", "cpu"), Err(CurveEditError::WrongKind { .. })));
}

#[test]
fn add_mix_member_appends() {
    let out = add_mix_member(TOML, "case_mix", "extra").unwrap();
    assert!(out.contains("curves = [\"cpu\", \"gpu\", \"extra\"]"));
    assert!(out.contains("# mix comment stays"));
}

#[test]
fn add_mix_member_rejects_duplicate() {
    assert!(matches!(
        add_mix_member(TOML, "case_mix", "cpu"),
        Err(CurveEditError::DuplicateMember { member, .. }) if member == "cpu"
    ));
}

#[test]
fn add_mix_member_rejects_graph_curve() {
    assert!(matches!(
        add_mix_member(TOML, "cpu", "gpu"),
        Err(CurveEditError::WrongKind { expected: "mix", .. })
    ));
}

#[test]
fn remove_mix_member_removes() {
    let out = remove_mix_member(TOML, "case_mix", "gpu").unwrap();
    assert!(out.contains("curves = [\"cpu\"]"));
    assert!(out.contains("[curves.gpu]"), "the member curve itself stays");
}

#[test]
fn remove_mix_member_rejects_last_member() {
    let one = remove_mix_member(TOML, "case_mix", "gpu").unwrap();
    assert!(matches!(
        remove_mix_member(&one, "case_mix", "cpu"),
        Err(CurveEditError::CannotRemoveLastMember(c)) if c == "case_mix"
    ));
}

#[test]
fn remove_mix_member_rejects_unknown_member() {
    assert!(matches!(
        remove_mix_member(TOML, "case_mix", "nope"),
        Err(CurveEditError::UnknownMember { member, .. }) if member == "nope"
    ));
}

#[test]
fn remove_curve_keeps_comments() {
    let out = remove_curve(TOML, "gpu").unwrap();
    assert!(out.contains("# top comment stays"));
    assert!(out.contains("# curve comment stays"));
    assert!(out.contains("points = [[40, 80], [70, 200]]"));
    assert!(!out.contains("[curves.gpu]"));
    assert!(!out.contains("trailing comment stays"));
}

#[test]
fn remove_curve_rejects_unknown_name() {
    assert!(matches!(
        remove_curve(TOML, "nope"),
        Err(CurveEditError::UnknownCurve(name)) if name == "nope"
    ));
}

#[test]
fn unparsable_text_is_a_parse_error() {
    assert!(matches!(replace_curve_points("[curves", "cpu", &[(1, 2)]), Err(CurveEditError::Parse(_))));
    assert!(matches!(remove_curve("= nope", "cpu"), Err(CurveEditError::Parse(_))));
}

#[test]
fn curves_table_is_created_for_a_new_curve() {
    let out = create_graph_curve("[daemon]\ntick_seconds = 2\n", "c", "cpu", &[(40, 80), (70, 200)]).unwrap();
    assert!(out.contains("[curves.c]"));
    assert!(out.contains("tick_seconds = 2"));
}

#[test]
fn inline_curve_entry_is_not_a_table() {
    let toml = "[curves]\ncpu = { kind = \"graph\", sensor = \"cpu\" }\n";
    assert!(matches!(
        replace_curve_points(toml, "cpu", &[(40, 80)]),
        Err(CurveEditError::CurveNotATable(c)) if c == "cpu"
    ));
}

#[test]
fn curves_key_that_is_not_a_table_is_refused() {
    let toml = "curves = 3\n";
    assert!(matches!(replace_curve_points(toml, "cpu", &[(40, 80)]), Err(CurveEditError::CurvesNotATable)));
}

#[test]
fn missing_curves_table_means_unknown_curve() {
    let toml = "[channels.pwm1]\ncurve = \"cpu\"\n";
    assert!(matches!(
        replace_curve_points(toml, "cpu", &[(40, 80)]),
        Err(CurveEditError::UnknownCurve(c)) if c == "cpu"
    ));
}

#[test]
fn curve_without_kind_is_of_no_kind() {
    let toml = "[curves.cpu]\nsensor = \"cpu\"\n";
    assert!(matches!(
        replace_curve_points(toml, "cpu", &[(40, 80)]),
        Err(CurveEditError::WrongKind { curve, expected: "graph" }) if curve == "cpu"
    ));
}

#[test]
fn replace_curve_points_in_document_writes_pairs() {
    let mut doc: toml_edit::DocumentMut = TOML.parse().unwrap();
    fand::curve_edit::replace_curve_points_in(&mut doc, "cpu", &[(30, 70), (60, 140)]).unwrap();
    let pts = doc["curves"]["cpu"]["points"].as_array().unwrap();
    assert_eq!(pts.len(), 2);
    let first = pts.get(0).unwrap().as_array().unwrap();
    assert_eq!(first.get(0).and_then(|v| v.as_integer()), Some(30));
    assert_eq!(first.get(1).and_then(|v| v.as_integer()), Some(70));
}

#[test]
fn add_and_remove_member_in_document() {
    let mut doc: toml_edit::DocumentMut = TOML.parse().unwrap();
    fand::curve_edit::add_mix_member_in(&mut doc, "case_mix", "extra").unwrap();
    let n = doc["curves"]["case_mix"]["curves"].as_array().unwrap().len();
    fand::curve_edit::remove_mix_member_in(&mut doc, "case_mix", "extra").unwrap();
    assert_eq!(doc["curves"]["case_mix"]["curves"].as_array().unwrap().len(), n - 1);
    fand::curve_edit::remove_curve_in(&mut doc, "gpu").unwrap();
    assert!(doc["curves"].as_table().unwrap().get("gpu").is_none());
}
