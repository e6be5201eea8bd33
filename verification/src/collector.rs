//! The collectors: what they remember between samples and what they report.

use vstd::hash_map::StringHashMap;
use vstd::prelude::*;

use crate::arrangement::law_arrangement_is_unique;
use crate::clock::Instant;
use crate::config::CollectorConfig;
use crate::kstat::{arc_state, empty_arc_snapshot, kstat_rows, no_arc_state, parse_arc_snapshot};
use crate::model::{
    pool_views, ArcSnapshot, EventRecord, EventSeverity, PoolSnapshot, PoolView, UiSnapshot,
};
use crate::pools::{
    law_memory_is_of_one_moment, of_one_moment, pools_sampled, rates_since, read_pool_snapshots,
    reading_of, readings, sampled_pools, Memory, PoolFile, TimedPoolIoCounters,
};
use crate::quantity::Quantity;
use crate::series::{lemma_cloned_quantities, windows_of, MetricPoint, TimeSeries, Windows};
use crate::totals::{read_rates, sum_of_values, total, total_rates, write_rates};

verus! {

/// What was read of the statistics directory for one sample.
#[derive(Debug, Clone)]
pub struct ProcSample {
    /// The contents of `arcstats`, if it could be read.
    pub arcstats: Option<String>,
    /// The `io` files of the pools, if the directory could be listed.
    pub pools: Option<Vec<PoolFile>>,
}

/// The state of the cache, if its statistics could be read.
pub fn read_arc_snapshot(arcstats: &Option<String>) -> (result: Option<ArcSnapshot>)
    ensures
        result == match *arcstats {
            Some(text) => Some(arc_state(kstat_rows(text@))),
            None => None,
        },
        result is Some ==> result->0.hit_ratio.well_formed() && result->0.miss_ratio.well_formed(),
{
    match arcstats {
        Some(text) => Some(parse_arc_snapshot(text.as_str())),
        None => None,
    }
}

/// The one event that `events` holds.
pub open spec fn only_event(
    events: Seq<EventRecord>,
    timestamp: Instant,
    severity: EventSeverity,
    message: Seq<char>,
) -> bool {
    &&& events.len() == 1
    &&& events[0].timestamp == timestamp
    &&& events[0].severity == severity
    &&& events[0].message@ == message
}

pub(crate) fn single_event(
    timestamp: Instant,
    severity: EventSeverity,
    message: &str,
) -> (result: Vec<EventRecord>)
    ensures
        only_event(result@, timestamp, severity, message@),
        result@.len() == 1,
        result@[0].timestamp == timestamp,
        result@[0].severity == severity,
        result@[0].message@ == message@,
{
    let mut events: Vec<EventRecord> = Vec::new();
    events.push(EventRecord { timestamp, severity, message: message.to_string() });
    events
}

/// All values in a window are quantities that can be divided out.
pub open spec fn sound_points(points: Seq<MetricPoint<Quantity>>) -> bool {
    forall|i: int| 0 <= i < points.len() ==> (#[trigger] points[i]).value.well_formed()
}

pub open spec fn sound_series(windows: Windows<Quantity>) -> bool {
    &&& sound_points(windows.last_minute)
    &&& sound_points(windows.last_five_minutes)
    &&& sound_points(windows.last_hour)
}

pub open spec fn sound_pool(pool: PoolView) -> bool {
    &&& pool.capacity_percent.well_formed()
    &&& pool.read_bytes_per_sec.well_formed()
    &&& pool.write_bytes_per_sec.well_formed()
    &&& pool.read_iops.well_formed()
    &&& pool.write_iops.well_formed()
}

/// Nothing in a snapshot is divided by zero.
pub open spec fn sound_snapshot(snapshot: UiSnapshot) -> bool {
    &&& forall|i: int| 0 <= i < snapshot.pools@.len() ==> sound_pool(#[trigger] snapshot.pools@[i]@)
    &&& snapshot.arc.hit_ratio.well_formed()
    &&& snapshot.arc.miss_ratio.well_formed()
    &&& sound_series(snapshot.read_history@)
    &&& sound_series(snapshot.write_history@)
}

/// Samples OpenZFS on Linux from its kernel statistics.
pub struct LinuxOpenZfsCollector {
    config: CollectorConfig,
    previous_pool_io: StringHashMap<TimedPoolIoCounters>,
    read_history: TimeSeries<Quantity>,
    write_history: TimeSeries<Quantity>,
}

impl LinuxOpenZfsCollector {
    pub closed spec fn spec_config(&self) -> CollectorConfig {
        self.config
    }

    /// The latest sample of each pool.
    pub closed spec fn memory(&self) -> Memory {
        self.previous_pool_io@
    }

    pub closed spec fn spec_read_history(&self) -> TimeSeries<Quantity> {
        self.read_history
    }

    pub closed spec fn spec_write_history(&self) -> TimeSeries<Quantity> {
        self.write_history
    }

    /// The samples in memory are of one moment, and the histories keep their
    /// lengths and hold nothing that is divided by zero.
    #[verifier::type_invariant]
    pub closed spec fn well_formed(&self) -> bool {
        &&& of_one_moment(self.previous_pool_io@)
        &&& self.read_history.standard_windows()
        &&& self.write_history.standard_windows()
        &&& sound_series(self.read_history@)
        &&& sound_series(self.write_history@)
    }

    /// Makes a collector that has sampled nothing yet.
    pub fn new(config: CollectorConfig) -> (result: Self)
        ensures
            result.spec_config() == config,
            result.memory() == Map::<Seq<char>, TimedPoolIoCounters>::empty(),
            result.spec_read_history()@ == windows_of(Seq::<MetricPoint<Quantity>>::empty()),
            result.spec_write_history()@ == windows_of(Seq::<MetricPoint<Quantity>>::empty()),
            result.spec_read_history().standard_windows(),
            result.spec_write_history().standard_windows(),
    {
        LinuxOpenZfsCollector {
            config,
            previous_pool_io: StringHashMap::new(),
            read_history: TimeSeries::default(),
            write_history: TimeSeries::default(),
        }
    }

    pub fn config(&self) -> (result: &CollectorConfig)
        ensures
            *result == self.spec_config(),
    {
        &self.config
    }

    /// Turns what was read at `now` into a snapshot. What is missing from the
    /// sample is missing from the snapshot; nothing fails.
    pub fn collect_now(&mut self, now: Instant, sample: &ProcSample) -> (result: UiSnapshot)
        ensures
            final(self).spec_config() == old(self).spec_config(),
            result.generated_at == now,
            result.stale_after == old(self).spec_config().stale_after,
            result.arc == match sample.arcstats {
                Some(text) => arc_state(kstat_rows(text@)),
                None => no_arc_state(),
            },
            pools_sampled(
                sample.pools,
                now,
                old(self).memory(),
                final(self).memory(),
                pool_views(result.pools@),
            ),
            ({
                let pools = pool_views(result.pools@);
                let read = MetricPoint { timestamp: now, value: total(read_rates(pools)) };
                let write = MetricPoint { timestamp: now, value: total(write_rates(pools)) };
                &&& final(self).spec_read_history().extends(&old(self).spec_read_history(), read)
                &&& final(self).spec_write_history().extends(&old(self).spec_write_history(), write)
                &&& read.value.value() == sum_of_values(read_rates(pools))
                &&& write.value.value() == sum_of_values(write_rates(pools))
            }),
            result.read_history@ == final(self).spec_read_history()@,
            result.read_history.standard_windows(),
            result.write_history@ == final(self).spec_write_history()@,
            result.write_history.standard_windows(),
            sound_snapshot(result),
            result.pools@.len() == 0 ==> only_event(
                result.events@,
                now,
                EventSeverity::Warning,
                "OpenZFS kstats unavailable or no pools found; telemetry is empty"@,
            ),
            result.pools@.len() > 0 ==> only_event(
                result.events@,
                now,
                EventSeverity::Info,
                "OpenZFS kstats sampled from procfs"@,
            ),
            sample.pools is None ==> result.pools@.len() == 0 && final(self).memory()
                == old(self).memory(),
            sample.pools is Some ==> result.pools@.len() == readings(sample.pools->0@).len(),
            result.read_history.last_minute@.last().timestamp == now,
            result.read_history.last_minute@.last().value.value() == sum_of_values(
                read_rates(pool_views(result.pools@)),
            ),
            result.write_history.last_minute@.last().timestamp == now,
            result.write_history.last_minute@.last().value.value() == sum_of_values(
                write_rates(pool_views(result.pools@)),
            ),
            result.events@.len() == 1,
            result.events@[0].timestamp == now,
            result.events@[0].severity == if result.pools@.len() == 0 {
                EventSeverity::Warning
            } else {
                EventSeverity::Info
            },
            result.events@[0].message@ == if result.pools@.len() == 0 {
                "OpenZFS kstats unavailable or no pools found; telemetry is empty"@
            } else {
                "OpenZFS kstats sampled from procfs"@
            },
            sample.arcstats is None ==> result.arc.size_bytes == 0 && result.arc.target_bytes == 0
                && result.arc.hit_ratio == Quantity::Zero && result.arc.miss_ratio
                == Quantity::Zero,
    {
        proof {
            use_type_invariant(&*self);
        }
        let arc: ArcSnapshot = match read_arc_snapshot(&sample.arcstats) {
            Some(arc) => arc,
            None => empty_arc_snapshot(),
        };

        let mut memory: StringHashMap<TimedPoolIoCounters> = StringHashMap::new();
        let mut read_history: TimeSeries<Quantity> = TimeSeries::default();
        let mut write_history: TimeSeries<Quantity> = TimeSeries::default();
        std::mem::swap(&mut memory, &mut self.previous_pool_io);
        std::mem::swap(&mut read_history, &mut self.read_history);
        std::mem::swap(&mut write_history, &mut self.write_history);

        let ghost before = memory@;
        let pools: Vec<PoolSnapshot> = read_pool_snapshots(
            &sample.pools,
            now,
            &mut memory,
        );
        let (total_read, total_write) = total_rates(&pools, Ghost(before), Ghost(now));
        read_history.push(now, total_read);
        write_history.push(now, total_write);

        let events: Vec<EventRecord> = if pools.len() == 0 {
            single_event(
                now,
                EventSeverity::Warning,
                "OpenZFS kstats unavailable or no pools found; telemetry is empty",
            )
        } else {
            single_event(now, EventSeverity::Info, "OpenZFS kstats sampled from procfs")
        };

        proof {
            assert forall|i: int| 0 <= i < pools@.len() implies sound_pool(
                #[trigger] pools@[i]@,
            ) by {
                assert(rates_since(before, now, pools@[i]@));
            }
            if sample.pools is Some {
                law_memory_is_of_one_moment(readings(sample.pools->0@), now);
            }
        }
        self.previous_pool_io = memory;
        self.read_history = read_history;
        self.write_history = write_history;
        let read_history: TimeSeries<Quantity> = self.read_history.clone();
        let write_history: TimeSeries<Quantity> = self.write_history.clone();
        proof {
            lemma_cloned_quantities(self.read_history@, read_history@);
            lemma_cloned_quantities(self.write_history@, write_history@);
        }
        UiSnapshot {
            generated_at: now,
            stale_after: self.config.stale_after,
            pools,
            arc,
            events,
            read_history,
            write_history,
        }
    }
}

/// Where no statistics of any pool can be read, the sample is empty: no pools
/// and no throughput.
pub proof fn law_missing_files_give_an_empty_sample(
    files: Option<Vec<PoolFile>>,
    now: Instant,
    before: Memory,
    after: Memory,
    pools: Seq<PoolView>,
)
    requires
        pools_sampled(files, now, before, after, pools),
        files is Some ==> forall|i: int|
            0 <= i < files->0@.len() ==> reading_of(#[trigger] files->0@[i]) is None,
    ensures
        pools.len() == 0,
        total(read_rates(pools)) == Quantity::Zero,
        total(write_rates(pools)) == Quantity::Zero,
{
    if files is Some {
        lemma_no_readings(files->0@);
        let nothing = Seq::<PoolView>::empty();
        assert(sampled_pools(before, readings(files->0@), now) =~= nothing);
        law_arrangement_is_unique(pools, nothing, nothing);
    }
}

proof fn lemma_no_readings(files: Seq<PoolFile>)
    requires
        forall|i: int| 0 <= i < files.len() ==> reading_of(#[trigger] files[i]) is None,
    ensures
        readings(files).len() == 0,
    decreases files.len(),
{
    if files.len() > 0 {
        let rest = files.drop_last();
        assert forall|i: int| 0 <= i < rest.len() implies reading_of(
            #[trigger] rest[i],
        ) is None by {
            assert(reading_of(files[i]) is None);
        }
        lemma_no_readings(rest);
        assert(reading_of(files[files.len() - 1]) is None);
    }
}

/// Nothing in a sound snapshot is divided by zero, wherever it stands.
pub proof fn law_sound_snapshots_can_be_divided_out(snapshot: UiSnapshot, i: int)
    requires
        sound_snapshot(snapshot),
    ensures
        0 <= i < snapshot.pools@.len() ==> {
            let pool = snapshot.pools@[i];
            &&& pool.capacity_percent.denominator() > 0
            &&& pool.read_bytes_per_sec.denominator() > 0
            &&& pool.write_bytes_per_sec.denominator() > 0
            &&& pool.read_iops.denominator() > 0
            &&& pool.write_iops.denominator() > 0
        },
        snapshot.arc.hit_ratio.denominator() > 0,
        snapshot.arc.miss_ratio.denominator() > 0,
        0 <= i < snapshot.read_history.last_minute@.len()
            ==> snapshot.read_history.last_minute@[i].value.denominator() > 0,
        0 <= i < snapshot.read_history.last_five_minutes@.len()
            ==> snapshot.read_history.last_five_minutes@[i].value.denominator() > 0,
        0 <= i < snapshot.read_history.last_hour@.len()
            ==> snapshot.read_history.last_hour@[i].value.denominator() > 0,
        0 <= i < snapshot.write_history.last_minute@.len()
            ==> snapshot.write_history.last_minute@[i].value.denominator() > 0,
        0 <= i < snapshot.write_history.last_five_minutes@.len()
            ==> snapshot.write_history.last_five_minutes@[i].value.denominator() > 0,
        0 <= i < snapshot.write_history.last_hour@.len()
            ==> snapshot.write_history.last_hour@[i].value.denominator() > 0,
{
    if 0 <= i < snapshot.pools@.len() {
        assert(sound_pool(snapshot.pools@[i]@));
    }
}

/// The one event of a sample has its time, its severity and its message.
pub proof fn law_the_only_event_is_as_given(
    events: Seq<EventRecord>,
    timestamp: Instant,
    severity: EventSeverity,
    message: Seq<char>,
)
    ensures
        only_event(events, timestamp, severity, message) <==> events.len() == 1
            && events[0].timestamp == timestamp && events[0].severity == severity
            && events[0].message@ == message,
{
}

} // verus!
