//! The GUI backend's config-cache policy, as pure decisions over config
//! versions.
//!
//! 1. **Generations never cross instances.** A generation number is only
//!    ever compared against the same daemon instance's.
//! 2. **Frames pair only with config that covers them**: the cached config
//!    of the frame's instance at the frame's generation or newer.
//! 3. Only the status pump may *establish* the cache; writes may only
//!    advance the generation within the instance the pump established.

use vstd::prelude::*;
use crate::proto::ConfigVersion;

verus! {

/// How a write's publish attempt lands.
#[derive(Debug, Clone, Copy, PartialEq, Eq)]
pub enum PublishOutcome {
    Published,
    /// No cache yet — the pump hasn't established which daemon is current.
    CacheUnestablished,
    /// The write's daemon is not the one the pump established.
    StaleInstance,
    /// Same instance, but the cache already advanced past this write.
    Superseded,
}

pub open spec fn classify_write_spec(cache: Option<ConfigVersion>, incoming: ConfigVersion) -> PublishOutcome {
    match cache {
        None => PublishOutcome::CacheUnestablished,
        Some(c) => if c.instance != incoming.instance {
            PublishOutcome::StaleInstance
        } else if incoming.generation < c.generation {
            PublishOutcome::Superseded
        } else {
            PublishOutcome::Published
        },
    }
}

/// May a write advance the cache with `incoming`? Only within the instance
/// the pump established, and never backwards.
pub fn classify_write(cache: Option<ConfigVersion>, incoming: ConfigVersion) -> (o: PublishOutcome)
    ensures
        o == classify_write_spec(cache, incoming),
{
    match cache {
        None => PublishOutcome::CacheUnestablished,
        Some(c) => {
            if c.instance != incoming.instance {
                PublishOutcome::StaleInstance
            } else if incoming.generation < c.generation {
                PublishOutcome::Superseded
            } else {
                PublishOutcome::Published
            }
        },
    }
}

pub open spec fn frame_covered_spec(cache: Option<ConfigVersion>, frame: ConfigVersion) -> bool {
    match cache {
        None => false,
        Some(c) => c.instance == frame.instance && c.generation >= frame.generation,
    }
}

/// Does the cache cover a frame computed under `frame`? Requires the same
/// instance — a cache holding another daemon lifetime's config never
/// covers anything, no matter how large its generation.
pub fn frame_covered(cache: Option<ConfigVersion>, frame: ConfigVersion) -> (b: bool)
    ensures
        b == frame_covered_spec(cache, frame),
{
    match cache {
        None => false,
        Some(c) => c.instance == frame.instance && c.generation >= frame.generation,
    }
}

/// What the pump does with a fetch result, given the frame that
/// triggered the fetch.
#[derive(Debug, Clone, Copy, PartialEq, Eq)]
pub enum InstallDecision {
    Install,
    /// Keep the current cache (fetch failed, or a concurrent write already
    /// advanced it past the fetched generation).
    Keep,
    /// The fetch answered from a different daemon than the frame came
    /// from: the stream in hand is dead — reconnect.
    StaleStream,
}

pub open spec fn install_decision_spec(
    cache: Option<ConfigVersion>,
    fetched: Option<ConfigVersion>,
    frame: ConfigVersion,
) -> InstallDecision {
    match fetched {
        None => InstallDecision::Keep,
        Some(f) => if f.instance != frame.instance {
            InstallDecision::StaleStream
        } else if (match cache {
            Some(c) => c.instance == f.instance && c.generation > f.generation,
            None => false,
        }) {
            InstallDecision::Keep
        } else {
            InstallDecision::Install
        },
    }
}

/// The pump's install policy; `fetched` is `None` when the fetch failed.
pub fn install_decision(cache: Option<ConfigVersion>, fetched: Option<ConfigVersion>, frame: ConfigVersion) -> (d:
    InstallDecision)
    ensures
        d == install_decision_spec(cache, fetched, frame),
{
    match fetched {
        None => InstallDecision::Keep,
        Some(f) => {
            if f.instance != frame.instance {
                return InstallDecision::StaleStream;
            }
            let advanced_past = match cache {
                Some(c) => c.instance == f.instance && c.generation > f.generation,
                None => false,
            };
            if advanced_past {
                InstallDecision::Keep
            } else {
                InstallDecision::Install
            }
        },
    }
}

/// Floor for the status-stream read deadline, seconds.
pub const STREAM_TIMEOUT_FLOOR_SECS: u64 = 15;

pub open spec fn stream_timeout_spec(tick_seconds: Option<u64>) -> int {
    match tick_seconds {
        None => STREAM_TIMEOUT_FLOOR_SECS as int,
        Some(t) => {
            let three: int = if 3 * t > u64::MAX { u64::MAX as int } else { 3 * t };
            if three > STREAM_TIMEOUT_FLOOR_SECS { three } else { STREAM_TIMEOUT_FLOOR_SECS as int }
        },
    }
}

/// The status-stream read deadline in seconds: `max(floor, 3 × tick)` once
/// the tick is known (saturating), else the floor — a fixed value would
/// declare a healthy slow-ticking daemon dead.
pub fn stream_timeout(tick_seconds: Option<u64>) -> (secs: u64)
    ensures
        secs == stream_timeout_spec(tick_seconds),
{
    match tick_seconds {
        None => STREAM_TIMEOUT_FLOOR_SECS,
        Some(t) => {
            let three: u64 = if t > u64::MAX / 3 { u64::MAX } else { t * 3 };
            if three > STREAM_TIMEOUT_FLOOR_SECS { three } else { STREAM_TIMEOUT_FLOOR_SECS }
        },
    }
}

/// A write only ever replaces the cache with config of the same instance
/// at the same or a newer generation.
pub proof fn lemma_publish_never_steps_back(cache: Option<ConfigVersion>, incoming: ConfigVersion)
    requires
        classify_write_spec(cache, incoming) == PublishOutcome::Published,
    ensures
        cache matches Some(c) && c.instance == incoming.instance && c.generation <= incoming.generation,
{
}

/// A cache of another daemon lifetime never covers a frame, whatever its
/// generation.
pub proof fn lemma_other_instance_never_covers(cache: ConfigVersion, frame: ConfigVersion)
    requires
        cache.instance != frame.instance,
    ensures
        !frame_covered_spec(Some(cache), frame),
{
}

/// The pump installs only config of the frame's own instance, never one
/// older than a same-instance cache, and never on a failed fetch; after an
/// install the cache covers the frame exactly when the fetched generation
/// has caught up with the frame's.
pub proof fn lemma_install_is_safe(cache: Option<ConfigVersion>, fetched: Option<ConfigVersion>, frame: ConfigVersion)
    requires
        install_decision_spec(cache, fetched, frame) == InstallDecision::Install,
    ensures
        fetched is Some,
        fetched->0.instance == frame.instance,
        (cache is Some && cache->0.instance == fetched->0.instance) ==> cache->0.generation <= fetched->0.generation,
        frame_covered_spec(fetched, frame) <==> fetched->0.generation >= frame.generation,
{
}

/// A failed fetch never touches the cache.
pub proof fn lemma_failed_fetch_keeps(cache: Option<ConfigVersion>, frame: ConfigVersion)
    ensures
        install_decision_spec(cache, None, frame) == InstallDecision::Keep,
{
}

/// What the pump does with one status frame: the cache afterwards,
/// whether the stream is stale (the daemon restarted under it), and
/// whether the frame is emitted paired with the cached config.
#[derive(Debug, Clone, Copy, PartialEq, Eq)]
pub struct FrameStep {
    pub cache: Option<ConfigVersion>,
    pub stale_stream: bool,
    pub paired: bool,
}

pub open spec fn frame_step_spec(cache: Option<ConfigVersion>, fetched: Option<ConfigVersion>, frame: ConfigVersion) -> FrameStep {
    if frame_covered_spec(cache, frame) {
        FrameStep { cache, stale_stream: false, paired: true }
    } else {
        match install_decision_spec(cache, fetched, frame) {
            InstallDecision::Install => FrameStep {
                cache: fetched,
                stale_stream: false,
                paired: frame_covered_spec(fetched, frame),
            },
            InstallDecision::Keep => FrameStep { cache, stale_stream: false, paired: frame_covered_spec(cache, frame) },
            InstallDecision::StaleStream => FrameStep { cache, stale_stream: true, paired: false },
        }
    }
}

/// One frame of the status pump. A cache that covers the frame is used as
/// it is (no fetch is made; `fetched` is then not consulted); otherwise
/// `fetched` is the result of fetching the daemon's config (`None` when
/// the fetch failed) and the install policy decides.
pub fn frame_step(cache: Option<ConfigVersion>, fetched: Option<ConfigVersion>, frame: ConfigVersion) -> (st: FrameStep)
    ensures
        st == frame_step_spec(cache, fetched, frame),
{
    if frame_covered(cache, frame) {
        return FrameStep { cache, stale_stream: false, paired: true };
    }
    match install_decision(cache, fetched, frame) {
        InstallDecision::Install => FrameStep { cache: fetched, stale_stream: false, paired: frame_covered(fetched, frame) },
        InstallDecision::Keep => FrameStep { cache, stale_stream: false, paired: frame_covered(cache, frame) },
        InstallDecision::StaleStream => FrameStep { cache, stale_stream: true, paired: false },
    }
}

/// A frame is only ever paired with config of its own daemon lifetime at
/// its generation or newer; a failed fetch never changes the cache; and a
/// cache is only ever replaced by config of the frame's own lifetime.
pub proof fn lemma_frames_pair_only_with_covering_config(
    cache: Option<ConfigVersion>,
    fetched: Option<ConfigVersion>,
    frame: ConfigVersion,
)
    ensures
        ({
            let st = frame_step_spec(cache, fetched, frame);
            &&& st.paired ==> (st.cache matches Some(c) && c.instance == frame.instance && c.generation
                >= frame.generation)
            &&& fetched is None ==> st.cache == cache
            &&& st.cache != cache ==> (st.cache matches Some(c) && c.instance == frame.instance)
            &&& st.stale_stream ==> !st.paired
        }),
{
}

pub open spec fn applied_warning_text(refresh: Result<PublishOutcome, String>, warning: Option<String>) -> Option<
    Seq<char>,
> {
    match refresh {
        Ok(PublishOutcome::StaleInstance) => Some(
            match warning {
                Some(w) => w@ + " \u{2014} and the daemon restarted meanwhile; the dashboard shows the current daemon, which may differ"@,
                None => "Change applied to a daemon that has since restarted \u{2014} the dashboard shows the current daemon, which may differ"@,
            },
        ),
        Ok(_) => match warning {
            Some(w) => Some(w@),
            None => None,
        },
        Err(e) => Some(
            "Change applied, but refreshing the view failed ("@ + e@ + ") \u{2014} the dashboard will catch up shortly"@,
        ),
    }
}

/// The warning a write reports with its result, given how refreshing the
/// dashboard's cache went (`Err` with the reason when the applied config
/// could not be read back) and the warning it already carries: a write
/// that landed on a daemon that has since restarted says so.
pub fn applied_warning(refresh: Result<PublishOutcome, String>, warning: Option<String>) -> (w: Option<String>)
    ensures
        match applied_warning_text(refresh, warning) {
            Some(t) => w matches Some(s) && s@ == t,
            None => w is None,
        },
{
    match refresh {
        Ok(PublishOutcome::StaleInstance) => {
            let mut m = String::new();
            match warning {
                Some(w) => {
                    m.append(w.as_str());
                    m.append(" \u{2014} and the daemon restarted meanwhile; the dashboard shows the current daemon, which may differ");
                },
                None => {
                    m.append("Change applied to a daemon that has since restarted \u{2014} the dashboard shows the current daemon, which may differ");
                },
            }
            Some(m)
        },
        Ok(_) => warning,
        Err(e) => {
            let mut m = String::new();
            m.append("Change applied, but refreshing the view failed (");
            m.append(e.as_str());
            m.append(") \u{2014} the dashboard will catch up shortly");
            Some(m)
        },
    }
}

/// A channel's user-tunable knobs as the dashboard shows them.
#[derive(Debug, Clone, Copy, PartialEq, Eq)]
pub struct ChannelSettings {
    pub min_pwm: u8,
    pub smoothing_seconds: u64,
    pub offset_pwm: i16,
}

impl ChannelSettings {
    /// The knobs of a configured channel.
    pub fn of(ch: &crate::config::ChannelConfig) -> (s: Self)
        ensures
            s.min_pwm == ch.min_pwm,
            s.smoothing_seconds == ch.smoothing_seconds,
            s.offset_pwm == ch.offset_pwm,
    {
        ChannelSettings { min_pwm: ch.min_pwm, smoothing_seconds: ch.smoothing_seconds, offset_pwm: ch.offset_pwm }
    }
}

} // verus!
