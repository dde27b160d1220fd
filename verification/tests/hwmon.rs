use fand::hwmon::{is_pwm_enable_name, is_valid_attr, name_matches, HwmonDevice, HwmonError};

fn dev() -> HwmonDevice {
    HwmonDevice::new("nct6799".to_string(), "/sys/class/hwmon/hwmon0".to_string())
}

#[test]
fn finds_device_by_name() {
    assert!(name_matches("nct6799\n", "nct6799"));
    assert!(!name_matches("k10temp\n", "nct6799"));
    assert!(!name_matches("nct6799x", "nct6799"));
    let d = dev();
    assert_eq!(d.name(), "nct6799");
    assert_eq!(d.path(), "/sys/class/hwmon/hwmon0");
}

#[test]
fn reads_fan_and_pwm() {
    let d = dev();
    assert_eq!(d.read_fan_rpm(2, "789\n"), Ok(789));
    assert_eq!(d.read_pwm(2, "128\n"), Ok(128));
    assert_eq!(d.read_pwm_enable(2, "5\n"), Ok(5));
}

#[test]
fn out_of_range_readings_are_errors() {
    let d = dev();
    assert_eq!(
        d.read_pwm(2, "300"),
        Err(HwmonError::PwmOutOfRange { device: "nct6799".to_string(), n: 2, value: 300 })
    );
    assert_eq!(
        d.read_fan_rpm(1, "-1"),
        Err(HwmonError::FanOutOfRange { device: "nct6799".to_string(), n: 1, value: -1 })
    );
    assert_eq!(
        d.read_pwm(2, "300").unwrap_err().message(),
        "nct6799: pwm2 reads 300, expected 0-255"
    );
    assert_eq!(d.read_fan_rpm(1, "-1").unwrap_err().message(), "nct6799: fan1_input reads -1");
}

#[test]
fn unparsable_readings_name_the_file_and_text() {
    let d = dev();
    let e = d.read_pwm(3, "  fast \n").unwrap_err();
    assert_eq!(
        e,
        HwmonError::Unparsable { path: "/sys/class/hwmon/hwmon0/pwm3".to_string(), text: "fast".to_string() }
    );
    assert_eq!(e.message(), "parsing /sys/class/hwmon/hwmon0/pwm3 (`fast`)");
}

#[test]
fn reads_millidegree_attributes() {
    let d = dev();
    assert_eq!(d.read_attr("temp1_input", "40500\n"), Ok(40500));
    assert_eq!(d.read_attr("temp1_input", "-5"), Ok(-5));
    assert_eq!(d.read_attr("temp1_input", "+5"), Ok(5));
    assert_eq!(d.read_attr("temp1_input", "-9223372036854775808"), Ok(i64::MIN));
    assert!(d.read_attr("temp1_input", "9223372036854775808").is_err());
}

#[test]
fn rejects_path_escaping_attr_names() {
    let d = dev();
    assert_eq!(
        d.read_attr("../hwmon0/temp1_input", "1"),
        Err(HwmonError::InvalidAttr("../hwmon0/temp1_input".to_string()))
    );
    assert!(d.attr_path("temp1/input").is_err());
    assert!(d.attr_path("").is_err());
    assert!(!is_valid_attr("a.b"));
    assert!(is_valid_attr("temp1_input"));
    assert_eq!(
        HwmonError::InvalidAttr("".to_string()).message(),
        "invalid hwmon attribute name ``"
    );
}

#[test]
fn writes_pwm_and_enable() {
    let d = dev();
    assert_eq!(
        d.write_pwm(2, 200),
        ("/sys/class/hwmon/hwmon0/pwm2".to_string(), "200".to_string())
    );
    assert_eq!(
        d.write_pwm_enable(2, 1),
        ("/sys/class/hwmon/hwmon0/pwm2_enable".to_string(), "1".to_string())
    );
}

#[test]
fn attribute_paths_join_the_device_directory() {
    let d = dev();
    assert_eq!(d.pwm_path(7), "/sys/class/hwmon/hwmon0/pwm7");
    assert_eq!(d.pwm_enable_path(7), "/sys/class/hwmon/hwmon0/pwm7_enable");
    assert_eq!(d.attr_path("temp1_input"), Ok("/sys/class/hwmon/hwmon0/temp1_input".to_string()));
    let slash = HwmonDevice::new("x".to_string(), "/d/".to_string());
    assert_eq!(slash.pwm_path(1), "/d/pwm1");
}

#[test]
fn lists_all_pwm_enable_files() {
    let names = ["name", "pwm2", "pwm2_enable", "pwm7_enable", "pwm_enable", "pwmx_enable", "fan2_input", "pwm12_enable"];
    let kept: Vec<&str> = names.iter().copied().filter(|n| is_pwm_enable_name(n)).collect();
    assert_eq!(kept, vec!["pwm2_enable", "pwm7_enable", "pwm12_enable"]);
}

#[test]
fn written_pwm_reads_back() {
    let d = dev();
    for v in [0u8, 7, 10, 99, 200, 255] {
        let (_, text) = d.write_pwm(2, v);
        assert_eq!(d.read_pwm(2, &text), Ok(v));
    }
}
