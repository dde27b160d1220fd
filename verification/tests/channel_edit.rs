use fand::channel_edit::{set_channel_curve, set_min_pwm, set_smoothing_seconds, ChannelEditError};

const TOML: &str = "\
# pwm1 comment stays
[channels.pwm1]
hwmon_name = \"nct6799\"
curve = \"cpu_rad\"
min_pwm = 80
smoothing_seconds = 12

# pwm2 comment stays
[channels.pwm2]
hwmon_name = \"nct6799\"
curve = \"case_mix\"
min_pwm = 70
smoothing_seconds = 5
";

#[test]
fn set_channel_curve_rebinds() {
    let out = set_channel_curve(TOML, "pwm2", "cpu_rad").unwrap();
    assert!(out.contains("# pwm2 comment stays"));
    assert!(!out.contains("case_mix"));
    assert_eq!(out.matches("curve = \"cpu_rad\"").count(), 2);
}

#[test]
fn channel_edit_set_channel_curve_rejects_unknown_channel() {
    assert!(matches!(
        set_channel_curve(TOML, "pwm9", "x"),
        Err(ChannelEditError::UnknownChannel(c)) if c == "pwm9"
    ));
}

#[test]
fn set_min_pwm_keeps_comments() {
    let out = set_min_pwm(TOML, "pwm2", 90).unwrap();
    assert!(out.contains("# pwm1 comment stays"));
    assert!(out.contains("# pwm2 comment stays"));
    assert!(out.contains("min_pwm = 90"));
    assert!(out.contains("min_pwm = 80"), "pwm1 untouched");
}

#[test]
fn set_min_pwm_rejects_unknown_channel() {
    assert!(matches!(
        set_min_pwm(TOML, "pwm9", 90),
        Err(ChannelEditError::UnknownChannel(c)) if c == "pwm9"
    ));
}

#[test]
fn set_smoothing_seconds_updates_value() {
    let out = set_smoothing_seconds(TOML, "pwm1", 20).unwrap();
    assert!(out.contains("smoothing_seconds = 20"));
    assert!(out.contains("smoothing_seconds = 5"), "pwm2 untouched");
}

#[test]
fn huge_smoothing_saturates_and_bad_text_is_a_parse_error() {
    let out = set_smoothing_seconds(TOML, "pwm1", u64::MAX).unwrap();
    assert!(out.contains("smoothing_seconds = 9223372036854775807"));
    assert!(matches!(set_min_pwm("[channels", "pwm1", 90), Err(ChannelEditError::Parse(_))));
    assert!(matches!(
        set_min_pwm("channels = 3\n", "pwm1", 90),
        Err(ChannelEditError::UnknownChannel(c)) if c == "pwm1"
    ));
    assert!(matches!(
        set_min_pwm("[channels]\npwm1 = 3\n", "pwm1", 90),
        Err(ChannelEditError::ChannelNotATable(c)) if c == "pwm1"
    ));
}

#[test]
fn channels_key_that_is_not_a_table_means_unknown_channel() {
    let toml = "channels = 3\n";
    assert!(matches!(set_min_pwm(toml, "pwm1", 90), Err(ChannelEditError::UnknownChannel(c)) if c == "pwm1"));
}

#[test]
fn set_min_pwm_in_document_sets_exactly_that_key() {
    let mut doc: toml_edit::DocumentMut = TOML.parse().unwrap();
    fand::channel_edit::set_min_pwm_in(&mut doc, "pwm2", 90).unwrap();
    assert_eq!(doc["channels"]["pwm2"]["min_pwm"].as_integer(), Some(90));
    assert_eq!(doc["channels"]["pwm1"]["min_pwm"].as_integer(), Some(80));
    assert!(matches!(
        fand::channel_edit::set_smoothing_seconds_in(&mut doc, "pwm9", 3),
        Err(ChannelEditError::UnknownChannel(c)) if c == "pwm9"
    ));
}

#[test]
fn set_smoothing_seconds_in_document_saturates() {
    let mut doc: toml_edit::DocumentMut = TOML.parse().unwrap();
    fand::channel_edit::set_smoothing_seconds_in(&mut doc, "pwm1", u64::MAX).unwrap();
    assert_eq!(doc["channels"]["pwm1"]["smoothing_seconds"].as_integer(), Some(i64::MAX));
}
