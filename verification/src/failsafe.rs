//! Handing fans back to firmware-auto control (`pwmN_enable = 5`) on every
//! exit path. The guard holds the files to restore; the writes themselves
//! happen where files can be written, when the guard goes out of scope.

use vstd::prelude::*;
use crate::config::Config;
use crate::engine::{union_paths, union_upto, views};

verus! {

/// `pwmN_enable` text for firmware auto on the NCT6799 (`1` would be manual).
pub const FIRMWARE_AUTO: &'static str = "5";

/// Construct before taking manual control of any channel and keep alive
/// for the daemon's whole lifetime: every listed file goes back to
/// firmware auto when it ends.
#[derive(Debug, Clone)]
pub struct FailsafeGuard {
    enable_paths: Vec<String>,
}

impl FailsafeGuard {
    pub fn new(enable_paths: Vec<String>) -> (g: Self)
        ensures
            g.paths() == enable_paths@,
    {
        FailsafeGuard { enable_paths }
    }

    pub closed spec fn paths(&self) -> Seq<String> {
        self.enable_paths@
    }

    /// The files to restore, in the order given.
    pub fn enable_paths(&self) -> (p: &Vec<String>)
        ensures
            p@ == self.paths(),
    {
        &self.enable_paths
    }
}

/// The fan chip restoring falls back to when no config is readable (it
/// runs after a kill, so it must not depend on a working config).
pub const DEFAULT_FAN_CHIP: &'static str = "nct6799";

/// The hwmon chips of a config's channels, in table order.
pub open spec fn channel_chips(cfg: Config) -> Seq<Seq<char>> {
    cfg.channels@.map_values(|e: (String, crate::config::ChannelConfig)| e.1.hwmon_name@)
}

/// The chips whose every `pwmN_enable` the standalone restore resets: the
/// default fan chip, then each chip of the readable config's channels not
/// already listed.
pub fn restore_chips(cfg: Option<&Config>) -> (chips: Vec<String>)
    ensures
        views(chips@) == match cfg {
            Some(c) => union_upto(seq![DEFAULT_FAN_CHIP@], channel_chips(*c), c.channels@.len() as nat),
            None => seq![DEFAULT_FAN_CHIP@],
        },
{
    let mut base: Vec<String> = Vec::new();
    let mut d = String::new();
    d.append(DEFAULT_FAN_CHIP);
    base.push(d);
    proof {
        assert(views(base@) =~= seq![DEFAULT_FAN_CHIP@]);
    }
    match cfg {
        None => base,
        Some(c) => {
            let mut names: Vec<String> = Vec::new();
            let mut i: usize = 0;
            while i < c.channels.len()
                invariant
                    0 <= i <= c.channels@.len(),
                    names@.len() == i,
                    views(names@) == channel_chips(*c).take(i as int),
                decreases c.channels.len() - i,
            {
                let ghost before = names@;
                let chip = c.channels[i].1.hwmon_name.clone();
                names.push(chip);
                proof {
                    assert(chip@ == c.channels@[i as int].1.hwmon_name@);
                    assert forall|k: int| 0 <= k < i + 1 implies views(names@)[k] == channel_chips(*c).take(i + 1)[k] by {
                        if k < i {
                            assert(names@[k] == before[k]);
                            assert(views(before)[k] == channel_chips(*c).take(i as int)[k]);
                        }
                    }
                    assert(views(names@) =~= channel_chips(*c).take(i + 1));
                }
                i = i + 1;
            }
            proof {
                assert(channel_chips(*c).take(c.channels@.len() as int) =~= channel_chips(*c));
            }
            union_paths(&base, &names)
        },
    }
}

} // verus!
