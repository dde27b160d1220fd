use fand::config::{
    default_deadband, default_step_down, default_step_up, ChannelConfig, Config, DaemonConfig,
};
use fand::failsafe::{restore_chips, FailsafeGuard, DEFAULT_FAN_CHIP, FIRMWARE_AUTO};

fn channel_on(chip: &str) -> ChannelConfig {
    ChannelConfig {
        hwmon_name: chip.to_string(),
        curve: "c".to_string(),
        min_pwm: 70,
        smoothing_seconds: 5,
        max_step_up: default_step_up(),
        max_step_down: default_step_down(),
        deadband: default_deadband(),
        offset_pwm: 0,
    }
}

fn config_with(chips: &[&str]) -> Config {
    Config {
        daemon: DaemonConfig::default(),
        sensors: vec![],
        curves: vec![],
        channels: chips
            .iter()
            .enumerate()
            .map(|(i, c)| (format!("pwm{}", i + 1), channel_on(c)))
            .collect(),
    }
}

#[test]
fn restore_without_config_uses_default_chip() {
    assert_eq!(restore_chips(None), vec![DEFAULT_FAN_CHIP.to_string()]);
}

#[test]
fn restore_adds_config_chips_once_after_default() {
    let cfg = config_with(&["nct6799", "it8686", "nct6799", "it8686", "amdgpu"]);
    assert_eq!(
        restore_chips(Some(&cfg)),
        vec!["nct6799".to_string(), "it8686".to_string(), "amdgpu".to_string()]
    );
}

#[test]
fn failsafe_guard_keeps_paths_in_order() {
    let paths = vec!["/a/pwm2_enable".to_string(), "/a/pwm1_enable".to_string()];
    let g = FailsafeGuard::new(paths.clone());
    assert_eq!(g.enable_paths(), &paths);
    assert_eq!(FIRMWARE_AUTO, "5");
}
