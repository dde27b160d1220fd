use fand::policy_edit::{add_mix_input, remove_mix_input, set_channel_curve, PolicyEditError};

const TOML: &str = "\
# pwm1 comment stays
[channels.pwm1]
hwmon_name = \"nct6799\"
policy = \"single\"
sensor = \"cpu\"
curve = \"cpu_rad\"
min_pwm = 80
smoothing_seconds = 12

# pwm2 comment stays
[channels.pwm2]
hwmon_name = \"nct6799\"
policy = \"mix\"
inputs = [{ sensor = \"cpu\", curve = \"cpu_case\" }, { sensor = \"gpu\", curve = \"gpu_case\" }]
min_pwm = 70
smoothing_seconds = 5
";

#[test]
fn set_channel_curve_updates_single_policy() {
    let out = set_channel_curve(TOML, "pwm1", "cpu", "new_curve").unwrap();
    assert!(out.contains("# pwm1 comment stays"));
    assert!(out.contains("curve = \"new_curve\""));
    assert!(out.contains("curve = \"cpu_case\""), "pwm2 untouched");
}

#[test]
fn set_channel_curve_updates_one_mix_input() {
    let out = set_channel_curve(TOML, "pwm2", "gpu", "new_gpu_curve").unwrap();
    assert!(out.contains("# pwm2 comment stays"));
    assert!(out.contains("sensor = \"cpu\", curve = \"cpu_case\""), "cpu input untouched");
    assert!(out.contains("sensor = \"gpu\", curve = \"new_gpu_curve\""));
    assert!(out.contains("curve = \"cpu_rad\""), "pwm1 untouched");
}

#[test]
fn policy_edit_set_channel_curve_rejects_unknown_channel() {
    assert!(matches!(
        set_channel_curve(TOML, "pwm9", "cpu", "x"),
        Err(PolicyEditError::UnknownChannel(c)) if c == "pwm9"
    ));
}

#[test]
fn set_channel_curve_rejects_unknown_sensor_in_mix() {
    assert!(matches!(
        set_channel_curve(TOML, "pwm2", "nope", "x"),
        Err(PolicyEditError::UnknownInput { sensor, .. }) if sensor == "nope"
    ));
}

#[test]
fn add_mix_input_appends_entry() {
    let out = add_mix_input(TOML, "pwm2", "ssd", "case_extra").unwrap();
    assert!(out.contains("sensor = \"ssd\""));
    assert!(out.contains("curve = \"case_extra\""));
    assert!(out.contains("sensor = \"cpu\", curve = \"cpu_case\""), "existing inputs untouched");
}

#[test]
fn add_mix_input_rejects_duplicate_sensor() {
    assert!(matches!(
        add_mix_input(TOML, "pwm2", "cpu", "x"),
        Err(PolicyEditError::DuplicateSensor { sensor, .. }) if sensor == "cpu"
    ));
}

#[test]
fn add_mix_input_rejects_non_mix_channel() {
    assert!(matches!(
        add_mix_input(TOML, "pwm1", "cpu", "x"),
        Err(PolicyEditError::NotMixPolicy { channel }) if channel == "pwm1"
    ));
}

#[test]
fn remove_mix_input_removes_entry() {
    let out = remove_mix_input(TOML, "pwm2", "gpu").unwrap();
    assert!(!out.contains("gpu_case"));
    assert!(out.contains("sensor = \"cpu\", curve = \"cpu_case\""));
}

#[test]
fn remove_mix_input_rejects_last_input() {
    let single_input_toml = "\
[channels.pwm2]
hwmon_name = \"nct6799\"
policy = \"mix\"
inputs = [{ sensor = \"cpu\", curve = \"cpu_case\" }]
min_pwm = 70
smoothing_seconds = 5
";
    assert!(matches!(
        remove_mix_input(single_input_toml, "pwm2", "cpu"),
        Err(PolicyEditError::CannotRemoveLastInput(c)) if c == "pwm2"
    ));
}

#[test]
fn remove_mix_input_rejects_unknown_sensor() {
    assert!(matches!(
        remove_mix_input(TOML, "pwm2", "ssd"),
        Err(PolicyEditError::UnknownInput { sensor, .. }) if sensor == "ssd"
    ));
    assert!(matches!(remove_mix_input("[x", "pwm2", "ssd"), Err(PolicyEditError::Parse(_))));
}

#[test]
fn add_mix_input_in_document_appends_inline_table() {
    let mut doc: toml_edit::DocumentMut = TOML.parse().unwrap();
    fand::policy_edit::add_mix_input_in(&mut doc, "pwm2", "nvme", "nvme_case").unwrap();
    let inputs = doc["channels"]["pwm2"]["inputs"].as_array().unwrap();
    assert_eq!(inputs.len(), 3);
    let last = inputs.get(2).unwrap().as_inline_table().unwrap();
    assert_eq!(last.get("sensor").and_then(|v| v.as_str()), Some("nvme"));
    assert_eq!(last.get("curve").and_then(|v| v.as_str()), Some("nvme_case"));
}

#[test]
fn remove_mix_input_in_document_drops_first_match() {
    let mut doc: toml_edit::DocumentMut = TOML.parse().unwrap();
    fand::policy_edit::remove_mix_input_in(&mut doc, "pwm2", "cpu").unwrap();
    let inputs = doc["channels"]["pwm2"]["inputs"].as_array().unwrap();
    assert_eq!(inputs.len(), 1);
    let only = inputs.get(0).unwrap().as_inline_table().unwrap();
    assert_eq!(only.get("sensor").and_then(|v| v.as_str()), Some("gpu"));
}

#[test]
fn set_channel_curve_in_document_rebinds_mix_input() {
    let mut doc: toml_edit::DocumentMut = TOML.parse().unwrap();
    fand::policy_edit::set_channel_curve_in(&mut doc, "pwm2", "gpu", "gpu_new").unwrap();
    let inputs = doc["channels"]["pwm2"]["inputs"].as_array().unwrap();
    let second = inputs.get(1).unwrap().as_inline_table().unwrap();
    assert_eq!(second.get("curve").and_then(|v| v.as_str()), Some("gpu_new"));
}
