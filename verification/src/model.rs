//! The telemetry that the collectors hand to the terminal.
//!
//! Measured numbers are exact; the terminal rounds them where it draws them.

use vstd::prelude::*;

use crate::clock::{time_between, Duration, Instant};
use crate::quantity::Quantity;
use crate::series::{lemma_cloned_quantities, TimeSeries};

verus! {

#[derive(Debug, Clone, Copy, PartialEq, Eq, Structural)]
pub enum PoolState {
    Online,
    Degraded,
    Faulted,
    Unknown,
}

impl PoolState {
    pub open spec fn name(self) -> Seq<char> {
        match self {
            PoolState::Online => "ONLINE"@,
            PoolState::Degraded => "DEGRADED"@,
            PoolState::Faulted => "FAULTED"@,
            PoolState::Unknown => "UNKNOWN"@,
        }
    }

    pub fn as_str(self) -> (result: &'static str)
        ensures
            result@ == self.name(),
            self == PoolState::Online ==> result@ == "ONLINE"@,
            self == PoolState::Degraded ==> result@ == "DEGRADED"@,
            self == PoolState::Faulted ==> result@ == "FAULTED"@,
            self == PoolState::Unknown ==> result@ == "UNKNOWN"@,
    {
        match self {
            PoolState::Online => "ONLINE",
            PoolState::Degraded => "DEGRADED",
            PoolState::Faulted => "FAULTED",
            PoolState::Unknown => "UNKNOWN",
        }
    }
}

/// The state of one pool and what it does per second.
#[derive(Debug)]
pub struct PoolSnapshot {
    pub name: String,
    pub state: PoolState,
    pub capacity_percent: Quantity,
    pub read_bytes_per_sec: Quantity,
    pub write_bytes_per_sec: Quantity,
    pub read_iops: Quantity,
    pub write_iops: Quantity,
    pub error_count: u64,
    pub status: String,
}

/// What a pool snapshot says, with its texts as characters.
pub struct PoolView {
    pub name: Seq<char>,
    pub state: PoolState,
    pub capacity_percent: Quantity,
    pub read_bytes_per_sec: Quantity,
    pub write_bytes_per_sec: Quantity,
    pub read_iops: Quantity,
    pub write_iops: Quantity,
    pub error_count: u64,
    pub status: Seq<char>,
}

impl View for PoolSnapshot {
    type V = PoolView;

    open spec fn view(&self) -> PoolView {
        PoolView {
            name: self.name@,
            state: self.state,
            capacity_percent: self.capacity_percent,
            read_bytes_per_sec: self.read_bytes_per_sec,
            write_bytes_per_sec: self.write_bytes_per_sec,
            read_iops: self.read_iops,
            write_iops: self.write_iops,
            error_count: self.error_count,
            status: self.status@,
        }
    }
}

impl Clone for PoolSnapshot {
    fn clone(&self) -> (result: Self)
        ensures
            result@ == self@,
    {
        PoolSnapshot {
            name: self.name.clone(),
            state: self.state,
            capacity_percent: self.capacity_percent,
            read_bytes_per_sec: self.read_bytes_per_sec,
            write_bytes_per_sec: self.write_bytes_per_sec,
            read_iops: self.read_iops,
            write_iops: self.write_iops,
            error_count: self.error_count,
            status: self.status.clone(),
        }
    }
}

/// What a list of pool snapshots says.
pub open spec fn pool_views(pools: Seq<PoolSnapshot>) -> Seq<PoolView> {
    pools.map_values(|pool: PoolSnapshot| pool@)
}

/// The state of the adaptive replacement cache.
#[derive(Debug)]
pub struct ArcSnapshot {
    pub size_bytes: u64,
    pub target_bytes: u64,
    pub hit_ratio: Quantity,
    pub miss_ratio: Quantity,
}

impl Clone for ArcSnapshot {
    fn clone(&self) -> (result: Self)
        ensures
            result == *self,
    {
        ArcSnapshot {
            size_bytes: self.size_bytes,
            target_bytes: self.target_bytes,
            hit_ratio: self.hit_ratio,
            miss_ratio: self.miss_ratio,
        }
    }
}

#[derive(Debug)]
pub struct EventRecord {
    pub timestamp: Instant,
    pub severity: EventSeverity,
    pub message: String,
}

impl Clone for EventRecord {
    fn clone(&self) -> (result: Self)
        ensures
            result == *self,
    {
        EventRecord {
            timestamp: self.timestamp,
            severity: self.severity,
            message: self.message.clone(),
        }
    }
}

#[derive(Debug, Clone, Copy, PartialEq, Eq, Structural)]
pub enum EventSeverity {
    Info,
    Warning,
    Error,
}

impl EventSeverity {
    pub open spec fn name(self) -> Seq<char> {
        match self {
            EventSeverity::Info => "info"@,
            EventSeverity::Warning => "warn"@,
            EventSeverity::Error => "error"@,
        }
    }

    pub fn as_str(self) -> (result: &'static str)
        ensures
            result@ == self.name(),
            self == EventSeverity::Info ==> result@ == "info"@,
            self == EventSeverity::Warning ==> result@ == "warn"@,
            self == EventSeverity::Error ==> result@ == "error"@,
    {
        match self {
            EventSeverity::Info => "info",
            EventSeverity::Warning => "warn",
            EventSeverity::Error => "error",
        }
    }
}

/// Everything that the terminal shows at one moment.
#[derive(Debug)]
pub struct UiSnapshot {
    pub generated_at: Instant,
    pub stale_after: Duration,
    pub pools: Vec<PoolSnapshot>,
    pub arc: ArcSnapshot,
    pub events: Vec<EventRecord>,
    pub read_history: TimeSeries<Quantity>,
    pub write_history: TimeSeries<Quantity>,
}

impl Clone for UiSnapshot {
    fn clone(&self) -> (result: Self)
        ensures
            result.generated_at == self.generated_at,
            result.stale_after == self.stale_after,
            pool_views(result.pools@) == pool_views(self.pools@),
            result.arc == self.arc,
            result.events@ == self.events@,
            result.read_history@ == self.read_history@,
            result.read_history.same_lengths(&self.read_history),
            result.write_history@ == self.write_history@,
            result.write_history.same_lengths(&self.write_history),
    {
        let pools: Vec<PoolSnapshot> = self.pools.clone();
        let events: Vec<EventRecord> = self.events.clone();
        assert(pool_views(pools@) =~= pool_views(self.pools@));
        assert(events@ =~= self.events@);
        let read_history: TimeSeries<Quantity> = self.read_history.clone();
        let write_history: TimeSeries<Quantity> = self.write_history.clone();
        proof {
            lemma_cloned_quantities(self.read_history@, read_history@);
            lemma_cloned_quantities(self.write_history@, write_history@);
        }
        UiSnapshot {
            generated_at: self.generated_at,
            stale_after: self.stale_after,
            pools,
            arc: self.arc.clone(),
            events,
            read_history,
            write_history,
        }
    }
}

impl UiSnapshot {
    /// More time than allowed has passed since the snapshot was made.
    pub open spec fn spec_is_stale(&self, now: Instant) -> bool {
        time_between(self.generated_at, now) > self.stale_after.nanos
    }

    /// Tells whether the snapshot is too old to be called live at `now`.
    pub fn is_stale(&self, now: Instant) -> (result: bool)
        ensures
            result == self.spec_is_stale(now),
            result <==> self.generated_at.nanos + self.stale_after.nanos < now.nanos,
    {
        now.duration_since(self.generated_at).nanos > self.stale_after.nanos
    }
}

/// A stale snapshot stays stale: time only adds to its age.
pub proof fn law_staleness_persists(snapshot: UiSnapshot, now: Instant, later: Instant)
    requires
        snapshot.spec_is_stale(now),
        now.nanos <= later.nanos,
    ensures
        snapshot.spec_is_stale(later),
{
}

/// A snapshot is stale as soon as its time and the time it may last lie before
/// now, and not before.
pub proof fn law_stale_means_too_old(snapshot: UiSnapshot, now: Instant)
    ensures
        snapshot.spec_is_stale(now) <==> snapshot.generated_at.nanos + snapshot.stale_after.nanos
            < now.nanos,
{
}

/// What is said of a pool is what its snapshot holds, field by field.
pub proof fn law_views_hold_every_field(pools: Seq<PoolSnapshot>, i: int)
    requires
        0 <= i < pools.len(),
    ensures
        pool_views(pools).len() == pools.len(),
        pool_views(pools)[i].name == pools[i].name@,
        pool_views(pools)[i].state == pools[i].state,
        pool_views(pools)[i].capacity_percent == pools[i].capacity_percent,
        pool_views(pools)[i].read_bytes_per_sec == pools[i].read_bytes_per_sec,
        pool_views(pools)[i].write_bytes_per_sec == pools[i].write_bytes_per_sec,
        pool_views(pools)[i].read_iops == pools[i].read_iops,
        pool_views(pools)[i].write_iops == pools[i].write_iops,
        pool_views(pools)[i].error_count == pools[i].error_count,
        pool_views(pools)[i].status == pools[i].status@,
{
}

/// Every state and every severity has its own name.
pub proof fn law_states_and_severities_have_names()
    ensures
        PoolState::Online.name() == "ONLINE"@,
        PoolState::Degraded.name() == "DEGRADED"@,
        PoolState::Faulted.name() == "FAULTED"@,
        PoolState::Unknown.name() == "UNKNOWN"@,
        EventSeverity::Info.name() == "info"@,
        EventSeverity::Warning.name() == "warn"@,
        EventSeverity::Error.name() == "error"@,
{
}

} // verus!
