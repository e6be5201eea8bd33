//! How often and how patiently the collectors look at the system.

use vstd::prelude::*;

use crate::clock::Duration;

verus! {

#[derive(Debug, Clone)]
pub struct CollectorConfig {
    /// Time between two samples of the counters.
    pub refresh_interval: Duration,
    /// Age from which a snapshot counts as stale.
    pub stale_after: Duration,
    /// Time between two looks at the slow topology data.
    pub topology_refresh_interval: Duration,
    /// How long an external helper may run.
    pub command_timeout: Duration,
    /// The directory that holds the statistics files.
    pub zfs_proc_root: String,
}

impl CollectorConfig {
    /// The times of a configuration, in milliseconds, and its directory.
    pub open spec fn says(
        &self,
        refresh: nat,
        stale: nat,
        topology: nat,
        timeout: nat,
        root: Seq<char>,
    ) -> bool {
        &&& self.refresh_interval.nanos == refresh * 1_000_000
        &&& self.stale_after.nanos == stale * 1_000_000
        &&& self.topology_refresh_interval.nanos == topology * 1_000_000
        &&& self.command_timeout.nanos == timeout * 1_000_000
        &&& self.zfs_proc_root@ == root
    }

    /// The collectors leave the system alone most of the time: they sample at
    /// most four times a second, look at the topology at most every fifteen
    /// seconds and wait no more than ten seconds for a helper.
    pub open spec fn is_low_interference(&self) -> bool {
        &&& self.refresh_interval.nanos >= 250_000_000
        &&& self.topology_refresh_interval.nanos >= 15_000_000_000
        &&& 250_000_000 <= self.command_timeout.nanos <= 10_000_000_000
    }

    /// The configuration for the times that a user asks for. Times that would
    /// disturb the system are replaced by the nearest ones that do not.
    pub fn from_options(
        refresh_ms: u64,
        topology_refresh_secs: u64,
        command_timeout_ms: u64,
    ) -> (result: Self)
        ensures
            result.says(
                at_least(refresh_ms as nat, 250),
                5_000,
                at_least(topology_refresh_secs as nat, 15) * 1_000,
                at_most(at_least(command_timeout_ms as nat, 250), 10_000),
                "/proc/spl/kstat/zfs"@,
            ),
            result.is_low_interference(),
            refresh_ms >= 250 ==> result.refresh_interval.nanos == refresh_ms * 1_000_000,
            refresh_ms < 250 ==> result.refresh_interval.nanos == 250_000_000,
            topology_refresh_secs >= 15 ==> result.topology_refresh_interval.nanos
                == topology_refresh_secs * 1_000_000_000,
            topology_refresh_secs < 15 ==> result.topology_refresh_interval.nanos
                == 15_000_000_000,
            250 <= command_timeout_ms <= 10_000 ==> result.command_timeout.nanos
                == command_timeout_ms * 1_000_000,
            command_timeout_ms < 250 ==> result.command_timeout.nanos == 250_000_000,
            command_timeout_ms > 10_000 ==> result.command_timeout.nanos == 10_000_000_000,
            result.stale_after.nanos == 5_000_000_000,
            result.zfs_proc_root@ == "/proc/spl/kstat/zfs"@,
    {
        let refresh: u64 = if refresh_ms < 250 { 250 } else { refresh_ms };
        let topology: u64 = if topology_refresh_secs < 15 { 15 } else { topology_refresh_secs };
        let timeout: u64 = if command_timeout_ms < 250 {
            250
        } else if command_timeout_ms > 10_000 {
            10_000
        } else {
            command_timeout_ms
        };
        let defaults = CollectorConfig::default();
        CollectorConfig {
            refresh_interval: Duration::from_millis(refresh),
            stale_after: defaults.stale_after,
            topology_refresh_interval: Duration::from_secs(topology),
            command_timeout: Duration::from_millis(timeout),
            zfs_proc_root: defaults.zfs_proc_root,
        }
    }
}

pub open spec fn at_least(value: nat, bound: nat) -> nat {
    if value < bound {
        bound
    } else {
        value
    }
}

pub open spec fn at_most(value: nat, bound: nat) -> nat {
    if value > bound {
        bound
    } else {
        value
    }
}

impl Default for CollectorConfig {
    fn default() -> (result: Self)
        ensures
            result.says(1_000, 5_000, 30_000, 2_000, "/proc/spl/kstat/zfs"@),
            result.is_low_interference(),
            result.refresh_interval.nanos == 1_000_000_000,
            result.stale_after.nanos == 5_000_000_000,
            result.topology_refresh_interval.nanos == 30_000_000_000,
            result.command_timeout.nanos == 2_000_000_000,
            result.zfs_proc_root@ == "/proc/spl/kstat/zfs"@,
    {
        CollectorConfig {
            refresh_interval: Duration::from_secs(1),
            stale_after: Duration::from_secs(5),
            topology_refresh_interval: Duration::from_secs(30),
            command_timeout: Duration::from_secs(2),
            zfs_proc_root: "/proc/spl/kstat/zfs".to_string(),
        }
    }
}

/// A bound is the nearest number on its own side: numbers on that side stay, all
/// others become the bound.
pub proof fn law_bounds_are_the_nearest(value: nat, bound: nat)
    ensures
        at_least(value, bound) >= bound,
        at_least(value, bound) >= value,
        at_least(value, bound) == value || at_least(value, bound) == bound,
        at_most(value, bound) <= bound,
        at_most(value, bound) <= value,
        at_most(value, bound) == value || at_most(value, bound) == bound,
{
}

/// A configuration leaves the system alone exactly if it samples at most four
/// times a second, looks at the topology at most every fifteen seconds and waits
/// between a quarter of a second and ten seconds for a helper.
pub proof fn law_low_interference_bounds_every_time(config: CollectorConfig)
    ensures
        config.is_low_interference() <==> config.refresh_interval.nanos >= 250_000_000
            && config.topology_refresh_interval.nanos >= 15_000_000_000
            && config.command_timeout.nanos >= 250_000_000 && config.command_timeout.nanos
            <= 10_000_000_000,
{
}

} // verus!
