use fand::config::ChannelConfig;
use fand::gui_state::{
    applied_warning, classify_write, frame_covered, frame_step, FrameStep, install_decision, stream_timeout, ChannelSettings, InstallDecision, PublishOutcome,
    STREAM_TIMEOUT_FLOOR_SECS,
};
use fand::proto::ConfigVersion;

fn v(instance: u64, generation: u64) -> ConfigVersion {
    ConfigVersion { instance, generation }
}

#[test]
fn stale_write_from_dead_daemon_cannot_advance_cache() {
    assert_eq!(classify_write(Some(v(0xA, 3)), v(0xB, 9)), PublishOutcome::StaleInstance);
}

#[test]
fn write_advances_only_forward_within_instance() {
    assert_eq!(classify_write(Some(v(0xA, 3)), v(0xA, 4)), PublishOutcome::Published);
    assert_eq!(classify_write(Some(v(0xA, 3)), v(0xA, 3)), PublishOutcome::Published);
    assert_eq!(classify_write(Some(v(0xA, 3)), v(0xA, 2)), PublishOutcome::Superseded);
}

#[test]
fn write_cannot_establish_an_empty_cache() {
    assert_eq!(classify_write(None, v(0xA, 1)), PublishOutcome::CacheUnestablished);
}

#[test]
fn wrong_instance_cache_never_covers_a_frame() {
    assert!(!frame_covered(Some(v(0xA, 100)), v(0xB, 1)));
}

#[test]
fn coverage_within_instance_is_by_generation() {
    let cache = Some(v(0xA, 3));
    assert!(frame_covered(cache, v(0xA, 3)));
    assert!(frame_covered(cache, v(0xA, 2)));
    assert!(!frame_covered(cache, v(0xA, 4)));
    assert!(!frame_covered(None, v(0xA, 0)));
}

#[test]
fn fetch_from_other_instance_means_stale_stream() {
    assert_eq!(install_decision(Some(v(0xA, 1)), Some(v(0xB, 0)), v(0xA, 1)), InstallDecision::StaleStream);
    assert_eq!(install_decision(None, Some(v(0xB, 0)), v(0xA, 0)), InstallDecision::StaleStream);
}

#[test]
fn fetch_failure_preserves_concurrently_advanced_cache() {
    let cache = Some(v(0xA, 6));
    assert_eq!(install_decision(cache, None, v(0xA, 5)), InstallDecision::Keep);
    assert!(frame_covered(cache, v(0xA, 6)));
}

#[test]
fn pump_installs_within_instance_but_never_steps_back() {
    assert_eq!(install_decision(None, Some(v(0xA, 2)), v(0xA, 2)), InstallDecision::Install);
    assert_eq!(install_decision(Some(v(0xA, 5)), Some(v(0xA, 4)), v(0xA, 4)), InstallDecision::Keep);
    assert_eq!(install_decision(Some(v(0xA, 4)), Some(v(0xA, 4)), v(0xA, 4)), InstallDecision::Install);
    // A cache from a dead instance is replaced by the live one's.
    assert_eq!(install_decision(Some(v(0xB, 9)), Some(v(0xA, 1)), v(0xA, 1)), InstallDecision::Install);
}

#[test]
fn stream_timeout_scales_with_tick_above_a_floor() {
    assert_eq!(stream_timeout(None), STREAM_TIMEOUT_FLOOR_SECS);
    assert_eq!(stream_timeout(Some(2)), 15);
    assert_eq!(stream_timeout(Some(10)), 30);
    assert_eq!(stream_timeout(Some(u64::MAX)), u64::MAX);
}

#[test]
fn channel_settings_copy_the_knobs() {
    let ch = ChannelConfig {
        hwmon_name: "nct6799".to_string(),
        curve: "c".to_string(),
        min_pwm: 70,
        smoothing_seconds: 12,
        max_step_up: 10,
        max_step_down: 3,
        deadband: 3,
        offset_pwm: -5,
    };
    assert_eq!(ChannelSettings::of(&ch), ChannelSettings { min_pwm: 70, smoothing_seconds: 12, offset_pwm: -5 });
}

#[test]
fn covered_frames_are_paired_without_a_fetch() {
    let cache = Some(v(0xA, 4));
    assert_eq!(frame_step(cache, None, v(0xA, 3)), FrameStep { cache, stale_stream: false, paired: true });
    // Uncovered frame, fetch failed: cache kept, frame emitted unpaired.
    assert_eq!(frame_step(cache, None, v(0xA, 5)), FrameStep { cache, stale_stream: false, paired: false });
    // Uncovered frame, fetched config catches up: installed and paired.
    assert_eq!(
        frame_step(cache, Some(v(0xA, 5)), v(0xA, 5)),
        FrameStep { cache: Some(v(0xA, 5)), stale_stream: false, paired: true }
    );
    // The fetch answered from another daemon: reconnect.
    assert_eq!(frame_step(cache, Some(v(0xB, 1)), v(0xA, 5)), FrameStep { cache, stale_stream: true, paired: false });
}

#[test]
fn write_to_a_restarted_daemon_warns() {
    assert_eq!(
        applied_warning(Ok(PublishOutcome::StaleInstance), None),
        Some(
            "Change applied to a daemon that has since restarted \u{2014} the dashboard shows the current daemon, which may differ"
                .to_string()
        )
    );
    assert_eq!(
        applied_warning(Ok(PublishOutcome::StaleInstance), Some("not persisted".to_string())),
        Some(
            "not persisted \u{2014} and the daemon restarted meanwhile; the dashboard shows the current daemon, which may differ"
                .to_string()
        )
    );
    assert_eq!(applied_warning(Ok(PublishOutcome::Published), None), None);
    assert_eq!(applied_warning(Ok(PublishOutcome::Superseded), Some("w".to_string())), Some("w".to_string()));
    assert_eq!(
        applied_warning(Err("bad toml".to_string()), None),
        Some("Change applied, but refreshing the view failed (bad toml) \u{2014} the dashboard will catch up shortly".to_string())
    );
}
