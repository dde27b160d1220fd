use fand::cli::{duty_percent, parse_raw_pwm, preserved_edit_name, split_point, state_base, PointError, PwmParseError};

/// A relative XDG_STATE_HOME is invalid per the XDG spec and ignored.
#[test]
fn state_base_ignores_relative_xdg_state_home() {
    assert_eq!(
        state_base(Some("relative/state".to_string()), Some("/home/x".to_string())),
        Some("/home/x/.local/state".to_string())
    );
    assert_eq!(
        state_base(Some("/abs/state".to_string()), Some("/home/x".to_string())),
        Some("/abs/state".to_string())
    );
    assert_eq!(
        state_base(None, Some("/home/x".to_string())),
        Some("/home/x/.local/state".to_string())
    );
    assert_eq!(state_base(None, None), None);
}

#[test]
fn state_base_without_any_absolute_candidate_is_none() {
    assert_eq!(state_base(Some("rel".to_string()), Some("also/rel".to_string())), None);
    assert_eq!(state_base(None, Some("/home/y/".to_string())), Some("/home/y/.local/state".to_string()));
}

#[test]
fn duty_percent_endpoints_and_rounding() {
    assert_eq!(duty_percent(0), "0%");
    assert_eq!(duty_percent(255), "100%");
    assert_eq!(duty_percent(128), "50%");
    // The pump-safety floor on pwm1.
    assert_eq!(duty_percent(80), "31%");
}

#[test]
fn duty_percent_rounds_to_nearest() {
    assert_eq!(duty_percent(1), "0%");
    assert_eq!(duty_percent(2), "1%");
    assert_eq!(duty_percent(60), "24%");
    assert_eq!(duty_percent(140), "55%");
}

#[test]
fn parse_pwm_raw_values() {
    assert_eq!(parse_raw_pwm("0").unwrap(), 0);
    assert_eq!(parse_raw_pwm("140").unwrap(), 140);
    assert_eq!(parse_raw_pwm("255").unwrap(), 255);
    assert!(parse_raw_pwm("256").is_err());
    assert!(parse_raw_pwm("-1").is_err());
    assert!(parse_raw_pwm("fast").is_err());
}

#[test]
fn raw_pwm_errors_say_why() {
    assert_eq!(parse_raw_pwm("300"), Err(PwmParseError::OutOfRange(300)));
    assert_eq!(parse_raw_pwm("70000"), Err(PwmParseError::NotANumber));
    assert_eq!(parse_raw_pwm(""), Err(PwmParseError::NotANumber));
    assert_eq!(parse_raw_pwm("+7"), Ok(7));
}

#[test]
fn split_point_separates_temperature_and_duty() {
    assert_eq!(split_point("40:80"), Ok((40, "80".to_string())));
    assert_eq!(split_point("60:55%"), Ok((60, "55%".to_string())));
    assert_eq!(split_point("-5:100"), Ok((-5, "100".to_string())));
    assert_eq!(split_point("40"), Err(PointError::NoColon));
    assert_eq!(split_point("hot:80"), Err(PointError::BadTemperature));
    assert_eq!(split_point("40:3:1"), Ok((40, "3:1".to_string())));
    assert_eq!(split_point("2147483648:1"), Err(PointError::BadTemperature));
    assert_eq!(split_point("-2147483648:1"), Ok((i32::MIN, "1".to_string())));
}

#[test]
fn preserved_edits_get_stamped_widening_names() {
    assert_eq!(preserved_edit_name(1_752_800_000, 0), "config-edit-1752800000.toml");
    assert_eq!(preserved_edit_name(42, 1), "config-edit-42-1.toml");
}
