//! From the counters of the pools to their rates.

use vstd::hash_map::StringHashMap;
use vstd::prelude::*;

use crate::arrangement::{
    arranged_by_name, insert_by_name, law_arrangement_keeps_every_pool,
};
use crate::clock::{Duration, Instant};
use crate::kstat::{parse_pool_io, pool_counters, PoolIoCounters};
use crate::model::{pool_views, PoolSnapshot, PoolState, PoolView};
use crate::quantity::{lemma_quotient, lemma_zero_value, Quantity};
use crate::text::ordered;

verus! {

/// How many entries of the statistics directory one sample looks at.
pub const MAX_POOLS_PER_SAMPLE: usize = 256;

/// Counters and the moment at which they were read.
#[derive(Debug, Clone, Copy, PartialEq, Eq, Structural)]
pub struct TimedPoolIoCounters {
    pub sampled_at: Instant,
    pub counters: PoolIoCounters,
}

/// The time since the earlier sample, if there is one and time has passed.
pub open spec fn elapsed_since(
    previous: Option<TimedPoolIoCounters>,
    now: Instant,
) -> Option<Duration> {
    match previous {
        Some(sample) => if sample.sampled_at.nanos < now.nanos {
            Some(Duration { nanos: (now.nanos - sample.sampled_at.nanos) as u128 })
        } else {
            None
        },
        None => None,
    }
}

/// By how much a counter grew. A counter that fell was reset: it counts as
/// unchanged.
pub open spec fn growth(before: u64, after: u64) -> u64 {
    if before <= after {
        (after - before) as u64
    } else {
        0
    }
}

/// The rate of a counter that was `before` the time `elapsed` ago. Without an
/// earlier sample there is no rate.
pub open spec fn rate(elapsed: Option<Duration>, before: u64, after: u64) -> Quantity {
    match elapsed {
        Some(elapsed) => Quantity::PerSecond { count: growth(before, after) as u128, elapsed },
        None => Quantity::Zero,
    }
}

/// What is known of a pool from its counters and an earlier sample of them.
pub open spec fn pool_state(
    name: Seq<char>,
    counters: PoolIoCounters,
    now: Instant,
    previous: Option<TimedPoolIoCounters>,
) -> PoolView {
    let elapsed = elapsed_since(previous, now);
    let before = previous.unwrap().counters;
    PoolView {
        name,
        state: PoolState::Unknown,
        capacity_percent: Quantity::Zero,
        read_bytes_per_sec: rate(elapsed, before.read_bytes, counters.read_bytes),
        write_bytes_per_sec: rate(elapsed, before.write_bytes, counters.write_bytes),
        read_iops: rate(elapsed, before.read_ops, counters.read_ops),
        write_iops: rate(elapsed, before.write_ops, counters.write_ops),
        error_count: 0,
        status: "pool io kstat"@,
    }
}

fn rate_of(elapsed: Duration, before: u64, after: u64) -> (result: Quantity)
    ensures
        result == rate(Some(elapsed), before, after),
        result is PerSecond,
        result->elapsed == elapsed,
        before <= after ==> before + result->count == after,
        after < before ==> result->count == 0,
{
    Quantity::PerSecond { count: after.saturating_sub(before) as u128, elapsed }
}

/// Derives the rates of a pool from its counters and an earlier sample of them.
pub fn pool_snapshot_from_counters(
    name: String,
    counters: PoolIoCounters,
    now: Instant,
    previous: Option<TimedPoolIoCounters>,
) -> (result: PoolSnapshot)
    ensures
        result@ == pool_state(name@, counters, now, previous),
        result.name == name,
        result.state == PoolState::Unknown,
        result.capacity_percent == Quantity::Zero,
        result.error_count == 0,
        result.status@ == "pool io kstat"@,
        previous is None || now.nanos <= previous->0.sampled_at.nanos ==> {
            &&& result.read_bytes_per_sec == Quantity::Zero
            &&& result.write_bytes_per_sec == Quantity::Zero
            &&& result.read_iops == Quantity::Zero
            &&& result.write_iops == Quantity::Zero
        },
        previous is Some && previous->0.sampled_at.nanos < now.nanos ==> {
            let before = previous->0.counters;
            let span = (now.nanos - previous->0.sampled_at.nanos) as real;
            &&& before.read_bytes <= counters.read_bytes ==> result.read_bytes_per_sec.value()
                * span == ((counters.read_bytes - before.read_bytes) * 1_000_000_000) as real
            &&& before.write_bytes <= counters.write_bytes ==> result.write_bytes_per_sec.value()
                * span == ((counters.write_bytes - before.write_bytes) * 1_000_000_000) as real
            &&& before.read_ops <= counters.read_ops ==> result.read_iops.value() * span == ((
            counters.read_ops - before.read_ops) * 1_000_000_000) as real
            &&& before.write_ops <= counters.write_ops ==> result.write_iops.value() * span == ((
            counters.write_ops - before.write_ops) * 1_000_000_000) as real
        },
{
    proof {
        if previous is Some && previous->0.sampled_at.nanos < now.nanos {
            law_pool_rates_are_differences_over_time(
                name@,
                counters,
                now,
                previous->0,
                (now.nanos - previous->0.sampled_at.nanos) as real,
            );
        }
    }
    let (read_bytes_per_sec, write_bytes_per_sec, read_iops, write_iops) = match previous {
        Some(sample) => match now.checked_duration_since(sample.sampled_at) {
            Some(elapsed) if !elapsed.is_zero() => (
                rate_of(elapsed, sample.counters.read_bytes, counters.read_bytes),
                rate_of(elapsed, sample.counters.write_bytes, counters.write_bytes),
                rate_of(elapsed, sample.counters.read_ops, counters.read_ops),
                rate_of(elapsed, sample.counters.write_ops, counters.write_ops),
            ),
            _ => (Quantity::Zero, Quantity::Zero, Quantity::Zero, Quantity::Zero),
        },
        None => (Quantity::Zero, Quantity::Zero, Quantity::Zero, Quantity::Zero),
    };
    PoolSnapshot {
        name,
        state: PoolState::Unknown,
        capacity_percent: Quantity::Zero,
        read_bytes_per_sec,
        write_bytes_per_sec,
        read_iops,
        write_iops,
        error_count: 0,
        status: "pool io kstat".to_string(),
    }
}

/// The `io` file of one pool, without contents where it could not be read.
#[derive(Debug, Clone)]
pub struct PoolFile {
    pub name: String,
    pub io: Option<String>,
}

/// The counters that were found for a pool.
pub struct Reading {
    pub name: Seq<char>,
    pub counters: PoolIoCounters,
}

pub open spec fn reading_of(file: PoolFile) -> Option<Reading> {
    match file.io {
        Some(text) => match pool_counters(text@) {
            Some(counters) => Some(Reading { name: file.name@, counters }),
            None => None,
        },
        None => None,
    }
}

/// The readings that a list of files gives. A file that cannot be read or
/// understood gives none.
pub open spec fn readings(files: Seq<PoolFile>) -> Seq<Reading>
    decreases files.len(),
{
    if files.len() == 0 {
        Seq::<Reading>::empty()
    } else {
        let before = readings(files.drop_last());
        match reading_of(files.last()) {
            Some(reading) => before.push(reading),
            None => before,
        }
    }
}

/// The latest sample of each pool.
pub type Memory = Map<Seq<char>, TimedPoolIoCounters>;

/// What is remembered after `found` was read at `now`.
pub open spec fn remembering(memory: Memory, found: Seq<Reading>, now: Instant) -> Memory
    decreases found.len(),
{
    if found.len() == 0 {
        memory
    } else {
        remembering(memory, found.drop_last(), now).insert(
            found.last().name,
            TimedPoolIoCounters { sampled_at: now, counters: found.last().counters },
        )
    }
}

/// The latest sample of a pool, if there is one.
pub open spec fn recalled(memory: Memory, name: Seq<char>) -> Option<TimedPoolIoCounters> {
    if memory.contains_key(name) {
        Some(memory[name])
    } else {
        None
    }
}

/// What reading number `index` of `found` says of its pool. The sample it is
/// compared with is the latest before it.
pub open spec fn sampled_pool(
    memory: Memory,
    found: Seq<Reading>,
    now: Instant,
    index: int,
) -> PoolView {
    pool_state(
        found[index].name,
        found[index].counters,
        now,
        recalled(remembering(memory, found.take(index), now), found[index].name),
    )
}

/// What the readings say of their pools, in the order of the readings.
pub open spec fn sampled_pools(memory: Memory, found: Seq<Reading>, now: Instant) -> Seq<
    PoolView,
> {
    Seq::new(found.len(), |i: int| sampled_pool(memory, found, now, i))
}

/// What a sample of the pools returns and leaves in memory. Without a listing
/// of the pools nothing is returned and nothing forgotten; with one, exactly
/// the pools that were read are remembered.
pub open spec fn pools_sampled(
    files: Option<Vec<PoolFile>>,
    now: Instant,
    before: Memory,
    after: Memory,
    pools: Seq<PoolView>,
) -> bool {
    match files {
        None => pools.len() == 0 && after == before,
        Some(files) => {
            &&& arranged_by_name(pools, sampled_pools(before, readings(files@), now))
            &&& after == remembering(Map::empty(), readings(files@), now)
        },
    }
}

/// Nothing, or a rate since one of the samples in `memory`.
pub open spec fn rate_since(memory: Memory, now: Instant, quantity: Quantity) -> bool {
    match quantity {
        Quantity::Zero => true,
        Quantity::Share { .. } | Quantity::Fraction { .. } => false,
        Quantity::PerSecond { count, elapsed } => {
            &&& count <= u64::MAX
            &&& elapsed.nanos > 0
            &&& exists|name: Seq<char>| #[trigger]
                memory.contains_key(name) && elapsed_since(Some(memory[name]), now) == Some(elapsed)
        },
    }
}

/// All rates of a pool are rates since samples in `memory`, and its capacity is
/// not measured.
pub open spec fn rates_since(memory: Memory, now: Instant, pool: PoolView) -> bool {
    &&& pool.capacity_percent == Quantity::Zero
    &&& rate_since(memory, now, pool.read_bytes_per_sec)
    &&& rate_since(memory, now, pool.write_bytes_per_sec)
    &&& rate_since(memory, now, pool.read_iops)
    &&& rate_since(memory, now, pool.write_iops)
}

/// Every remembered sample is an earlier one or one of `now`.
proof fn lemma_remembering_adds_now(
    memory: Memory,
    found: Seq<Reading>,
    now: Instant,
    name: Seq<char>,
)
    requires
        remembering(memory, found, now).contains_key(name),
    ensures
        remembering(memory, found, now)[name].sampled_at == now || (memory.contains_key(name)
            && memory[name] == remembering(memory, found, now)[name]),
    decreases found.len(),
{
    if found.len() > 0 && found.last().name != name {
        lemma_remembering_adds_now(memory, found.drop_last(), now, name);
    }
}

/// Reads the counters of the pools, derives their rates from the samples in
/// `previous` and replaces those samples. The pools come back by name.
pub fn read_pool_snapshots(
    files: &Option<Vec<PoolFile>>,
    now: Instant,
    previous: &mut StringHashMap<TimedPoolIoCounters>,
) -> (result: Vec<PoolSnapshot>)
    ensures
        pools_sampled(*files, now, old(previous)@, final(previous)@, pool_views(result@)),
        forall|i: int|
            0 <= i < result@.len() ==> rates_since(old(previous)@, now, #[trigger] result@[i]@),
        files is None ==> result@.len() == 0 && final(previous)@ == old(previous)@,
        files is Some ==> result@.len() == readings(files->0@).len(),
        forall|i: int, j: int|
            0 <= i < j < result@.len() ==> ordered(
                (#[trigger] result@[i]).name@,
                (#[trigger] result@[j]).name@,
            ),
{
    let mut pools: Vec<PoolSnapshot> = Vec::new();
    let files: &Vec<PoolFile> = match files {
        Some(files) => files,
        None => {
            return pools;
        },
    };
    let ghost before = previous@;
    let mut sampled: StringHashMap<TimedPoolIoCounters> = StringHashMap::new();
    let mut i: usize = 0;
    proof {
        assert(readings(files@.take(0)) == Seq::<Reading>::empty());
        assert(pool_views(pools@) =~= sampled_pools(before, readings(files@.take(0)), now));
    }
    while i < files.len()
        invariant
            i <= files@.len(),
            arranged_by_name(
                pool_views(pools@),
                sampled_pools(before, readings(files@.take(i as int)), now),
            ),
            previous@ == remembering(before, readings(files@.take(i as int)), now),
            sampled@ == remembering(Map::empty(), readings(files@.take(i as int)), now),
            forall|j: int|
                0 <= j < pools@.len() ==> rates_since(before, now, #[trigger] pools@[j]@),
        decreases files@.len() - i,
    {
        let file: &PoolFile = &files[i];
        let ghost found = readings(files@.take(i as int));
        assert(files@.take(i + 1).drop_last() == files@.take(i as int));
        assert(files@.take(i + 1).last() == *file);
        let counters: Option<PoolIoCounters> = match &file.io {
            Some(text) => parse_pool_io(text.as_str()),
            None => None,
        };
        if let Some(counters) = counters {
            let ghost reading = Reading { name: file.name@, counters };
            let ghost grown = found.push(reading);
            let ghost earlier = sampled_pools(before, found, now);
            assert(readings(files@.take(i + 1)) == grown);
            assert(grown.drop_last() == found);
            let sample: Option<TimedPoolIoCounters> = match previous.get(file.name.as_str()) {
                Some(sample) => Some(*sample),
                None => None,
            };
            assert(sample == recalled(previous@, file.name@));
            let pool = pool_snapshot_from_counters(file.name.clone(), counters, now, sample);
            proof {
                if sample is Some {
                    lemma_remembering_adds_now(before, found, now, file.name@);
                }
                assert(rates_since(before, now, pool@));
                assert(grown.take(found.len() as int) == found);
                assert forall|j: int| 0 <= j < found.len() implies #[trigger] sampled_pool(
                    before,
                    grown,
                    now,
                    j,
                ) == sampled_pool(before, found, now, j) by {
                    assert(grown.take(j) == found.take(j));
                }
                assert(sampled_pools(before, grown, now) =~= earlier.push(pool@));
            }
            let ghost listed = pools@;
            let slot: usize = insert_by_name(&mut pools, pool);
            assert forall|j: int| 0 <= j < pools@.len() implies rates_since(
                before,
                now,
                #[trigger] pools@[j]@,
            ) by {
                if j < slot {
                    assert(pools@[j] == listed[j]);
                } else if j > slot {
                    assert(pools@[j] == listed[j - 1]);
                }
            }
            let timed = TimedPoolIoCounters { sampled_at: now, counters };
            previous.insert(file.name.clone(), timed);
            sampled.insert(file.name.clone(), timed);
        }
        i += 1;
    }
    assert(files@.take(files@.len() as int) == files@);
    *previous = sampled;
    proof {
        let views = pool_views(pools@);
        law_arrangement_keeps_every_pool(views, sampled_pools(before, readings(files@), now));
        assert forall|a: int, b: int| 0 <= a < b < pools@.len() implies ordered(
            (#[trigger] pools@[a]).name@,
            (#[trigger] pools@[b]).name@,
        ) by {
            assert(ordered(views[a].name, views[b].name));
        }
    }
    pools
}

/// All samples in memory were taken at one moment.
pub open spec fn of_one_moment(memory: Memory) -> bool {
    forall|left: Seq<char>, right: Seq<char>| #[trigger]
        memory.contains_key(left) && #[trigger] memory.contains_key(right)
            ==> memory[left].sampled_at == memory[right].sampled_at
}

/// The samples that a sample of the pools leaves in memory are of one moment.
pub proof fn law_memory_is_of_one_moment(found: Seq<Reading>, now: Instant)
    ensures
        of_one_moment(remembering(Map::empty(), found, now)),
        forall|name: Seq<char>| #[trigger]
            remembering(Map::empty(), found, now).contains_key(name) ==> remembering(
                Map::empty(),
                found,
                now,
            )[name].sampled_at == now,
{
    assert forall|name: Seq<char>| #[trigger]
        remembering(Map::empty(), found, now).contains_key(name) implies remembering(
        Map::empty(),
        found,
        now,
    )[name].sampled_at == now by {
        lemma_remembering_adds_now(Map::empty(), found, now, name);
    }
}

/// Exactly the pools that were read are remembered, so memory never grows
/// beyond one sample.
pub proof fn law_memory_holds_what_was_read(found: Seq<Reading>, now: Instant)
    ensures
        forall|name: Seq<char>|
            #![trigger remembering(Map::empty(), found, now).contains_key(name)]
            remembering(Map::empty(), found, now).contains_key(name) <==> exists|i: int|
                0 <= i < found.len() && (#[trigger] found[i]).name == name,
        remembering(Map::empty(), found, now).dom().finite(),
        remembering(Map::empty(), found, now).dom().len() <= found.len(),
    decreases found.len(),
{
    let memory = remembering(Map::empty(), found, now);
    if found.len() > 0 {
        let rest = found.drop_last();
        let before = remembering(Map::empty(), rest, now);
        law_memory_holds_what_was_read(rest, now);
        assert forall|name: Seq<char>| #[trigger] memory.contains_key(name) implies exists|i: int|
            0 <= i < found.len() && (#[trigger] found[i]).name == name by {
            if name == found.last().name {
                assert(found[found.len() - 1].name == name);
            } else {
                assert(before.contains_key(name));
                let i = choose|i: int| 0 <= i < rest.len() && (#[trigger] rest[i]).name == name;
                assert(found[i].name == name);
            }
        }
        assert forall|name: Seq<char>|
            (exists|i: int| 0 <= i < found.len() && (#[trigger] found[i]).name == name)
                implies #[trigger] memory.contains_key(name) by {
            let i = choose|i: int| 0 <= i < found.len() && (#[trigger] found[i]).name == name;
            if i < rest.len() {
                assert(rest[i].name == name);
                assert(before.contains_key(name));
            }
        }
        assert(memory.dom() =~= before.dom().insert(found.last().name));
    }
}

/// A pool without an earlier sample has no rates: a first sample reports none.
pub proof fn law_first_sample_has_no_rates(name: Seq<char>, counters: PoolIoCounters, now: Instant)
    ensures
        pool_state(name, counters, now, None).read_bytes_per_sec == Quantity::Zero,
        pool_state(name, counters, now, None).write_bytes_per_sec == Quantity::Zero,
        pool_state(name, counters, now, None).read_iops == Quantity::Zero,
        pool_state(name, counters, now, None).write_iops == Quantity::Zero,
{
}

/// A clock that did not advance gives no rates.
pub proof fn law_no_rates_without_time(
    name: Seq<char>,
    counters: PoolIoCounters,
    now: Instant,
    sample: TimedPoolIoCounters,
)
    requires
        now.nanos <= sample.sampled_at.nanos,
    ensures
        pool_state(name, counters, now, Some(sample)) == pool_state(name, counters, now, None),
{
}

/// Counters that did not grow, because nothing happened or because they were
/// reset, give rates of zero.
pub proof fn law_fallen_counters_give_zero(elapsed: Option<Duration>, before: u64, after: u64)
    requires
        after <= before,
        elapsed is Some ==> elapsed->0.nanos > 0,
    ensures
        rate(elapsed, before, after).value() == 0real,
{
    lemma_zero_value();
    if elapsed is Some {
        let span = elapsed->0.nanos as real;
        assert(0real / span == 0real) by (nonlinear_arith)
            requires
                span > 0real,
        ;
    }
}

/// A pool that two samples in a row have read is measured by how much its
/// counters grew, over the time between the samples.
pub proof fn law_second_sample_measures_growth(
    first: Seq<Reading>,
    first_time: Instant,
    i: int,
    second: Seq<Reading>,
    second_time: Instant,
    j: int,
)
    requires
        first_time.nanos < second_time.nanos,
        0 <= i < first.len(),
        0 <= j < second.len(),
        first[i].name == second[j].name,
        forall|k: int| i < k < first.len() ==> (#[trigger] first[k]).name != first[i].name,
        forall|k: int| 0 <= k < j ==> (#[trigger] second[k]).name != second[j].name,
    ensures
        ({
            let memory = remembering(Map::empty(), first, first_time);
            let pool = sampled_pool(memory, second, second_time, j);
            let elapsed = Duration { nanos: (second_time.nanos - first_time.nanos) as u128 };
            let before = first[i].counters;
            let after = second[j].counters;
            &&& pool.read_bytes_per_sec == Quantity::PerSecond {
                count: growth(before.read_bytes, after.read_bytes) as u128,
                elapsed,
            }
            &&& pool.write_bytes_per_sec == Quantity::PerSecond {
                count: growth(before.write_bytes, after.write_bytes) as u128,
                elapsed,
            }
            &&& pool.read_iops == Quantity::PerSecond {
                count: growth(before.read_ops, after.read_ops) as u128,
                elapsed,
            }
            &&& pool.write_iops == Quantity::PerSecond {
                count: growth(before.write_ops, after.write_ops) as u128,
                elapsed,
            }
        }),
{
    let memory = remembering(Map::empty(), first, first_time);
    lemma_remembers_last(Map::empty(), first, first_time, i);
    assert forall|k: int| 0 <= k < second.take(j).len() implies (#[trigger] second.take(j)[k]).name
        != second[j].name by {
        assert(second[k].name != second[j].name);
    }
    lemma_remembers_others(memory, second.take(j), second_time, second[j].name);
}

/// The last reading of a pool is the one that is remembered.
proof fn lemma_remembers_last(memory: Memory, found: Seq<Reading>, now: Instant, i: int)
    requires
        0 <= i < found.len(),
        forall|k: int| i < k < found.len() ==> (#[trigger] found[k]).name != found[i].name,
    ensures
        recalled(remembering(memory, found, now), found[i].name) == Some(
            TimedPoolIoCounters { sampled_at: now, counters: found[i].counters },
        ),
    decreases found.len(),
{
    if i < found.len() - 1 {
        let rest = found.drop_last();
        assert forall|k: int| i < k < rest.len() implies (#[trigger] rest[k]).name
            != rest[i].name by {
            assert(found[k].name != found[i].name);
        }
        lemma_remembers_last(memory, rest, now, i);
        assert(found[found.len() - 1].name != found[i].name);
    }
}

/// Readings of other pools leave what is remembered of a pool alone.
proof fn lemma_remembers_others(memory: Memory, found: Seq<Reading>, now: Instant, name: Seq<char>)
    requires
        forall|k: int| 0 <= k < found.len() ==> (#[trigger] found[k]).name != name,
    ensures
        recalled(remembering(memory, found, now), name) == recalled(memory, name),
    decreases found.len(),
{
    if found.len() > 0 {
        let rest = found.drop_last();
        assert forall|k: int| 0 <= k < rest.len() implies (#[trigger] rest[k]).name != name by {
            assert(found[k].name != name);
        }
        lemma_remembers_others(memory, rest, now, name);
        assert(found[found.len() - 1].name != name);
    }
}

/// What an entry of the statistics directory is.
#[derive(Debug, Clone, Copy, PartialEq, Eq, Structural)]
pub enum EntryKind {
    Directory,
    Other,
    Unreadable,
}

/// Entry number `index` is looked at as a pool: it is one of the first entries,
/// and a directory.
pub open spec fn is_candidate(kinds: Seq<EntryKind>, index: int) -> bool {
    &&& 0 <= index < kinds.len()
    &&& index < MAX_POOLS_PER_SAMPLE
    &&& kinds[index] == EntryKind::Directory
}

/// Picks the entries that may be pools, in the order of the entries.
pub fn candidate_pools(kinds: &Vec<EntryKind>) -> (result: Vec<usize>)
    ensures
        result@.len() <= MAX_POOLS_PER_SAMPLE,
        forall|i: int, j: int| 0 <= i < j < result@.len() ==> result@[i] < result@[j],
        forall|index: usize| #[trigger]
            result@.contains(index) <==> is_candidate(kinds@, index as int),
        forall|index: usize| #[trigger]
            result@.contains(index) <==> index < 256 && index < kinds@.len() && kinds@[index as int]
                == EntryKind::Directory,
{
    let mut result: Vec<usize> = Vec::new();
    let mut next: usize = 0;
    while next < kinds.len() && next < MAX_POOLS_PER_SAMPLE
        invariant
            next <= kinds@.len(),
            next <= MAX_POOLS_PER_SAMPLE,
            result@.len() <= next,
            forall|i: int| 0 <= i < result@.len() ==> #[trigger] result@[i] < next,
            forall|i: int, j: int| 0 <= i < j < result@.len() ==> result@[i] < result@[j],
            forall|index: usize| #[trigger]
                result@.contains(index) <==> index < next && is_candidate(kinds@, index as int),
        decreases kinds@.len() - next,
    {
        let ghost before = result@;
        if kinds[next] == EntryKind::Directory {
            result.push(next);
            assert forall|index: usize| #[trigger] result@.contains(index) implies index <= next
                && is_candidate(kinds@, index as int) by {
                let i = choose|i: int| 0 <= i < result@.len() && result@[i] == index;
                if i < before.len() {
                    assert(before[i] == index);
                    assert(before.contains(index));
                }
            }
            assert forall|index: usize|
                index <= next && is_candidate(kinds@, index as int) implies #[trigger] result@.contains(
                index,
            ) by {
                if index == next {
                    assert(result@[before.len() as int] == index);
                } else {
                    assert(before.contains(index));
                    let i = choose|i: int| 0 <= i < before.len() && before[i] == index;
                    assert(result@[i] == index);
                }
            }
        }
        next += 1;
    }
    result
}

/// A counter that grew, or stayed, was as much lower before as it grew; one that
/// fell counts as unchanged.
pub proof fn law_growth_adds_up(before: u64, after: u64)
    ensures
        before <= after ==> before + growth(before, after) == after,
        after < before ==> growth(before, after) == 0,
{
}

/// A rate per second times the nanoseconds of its span is the difference of the
/// counter, a thousand million times.
pub proof fn law_a_rate_times_its_span_is_the_difference(span: Duration, before: u64, after: u64)
    requires
        span.nanos > 0,
    ensures
        before <= after ==> rate(Some(span), before, after).value() * span.nanos as real == ((after
            - before) * 1_000_000_000) as real,
        after < before ==> rate(Some(span), before, after).value() == 0real,
        rate(Some(span), before, after).value() >= 0real,
        rate(None, before, after) == Quantity::Zero,
{
    lemma_quotient(rate(Some(span), before, after));
    let v = rate(Some(span), before, after).value();
    let s = span.nanos as real;
    assert(v >= 0real) by (nonlinear_arith)
        requires
            v * s >= 0real,
            s > 0real,
    ;
    if after < before {
        law_fallen_counters_give_zero(Some(span), before, after);
    }
}

/// Two samples of a pool give, for each of its four counters, the difference of
/// that counter over the time between the samples; a counter that fell gives
/// nothing. All else that is said of the pool does not depend on the counters.
pub proof fn law_pool_rates_are_differences_over_time(
    name: Seq<char>,
    counters: PoolIoCounters,
    now: Instant,
    sample: TimedPoolIoCounters,
    span: real,
)
    requires
        sample.sampled_at.nanos < now.nanos,
        span == (now.nanos - sample.sampled_at.nanos) as real,
    ensures
        ({
            let pool = pool_state(name, counters, now, Some(sample));
            let before = sample.counters;
            let after = counters;
            &&& before.read_bytes <= after.read_bytes ==> pool.read_bytes_per_sec.value() * span
                == ((after.read_bytes - before.read_bytes) * 1_000_000_000) as real
            &&& after.read_bytes < before.read_bytes ==> pool.read_bytes_per_sec.value() == 0real
            &&& before.write_bytes <= after.write_bytes ==> pool.write_bytes_per_sec.value() * span
                == ((after.write_bytes - before.write_bytes) * 1_000_000_000) as real
            &&& after.write_bytes < before.write_bytes ==> pool.write_bytes_per_sec.value() == 0real
            &&& before.read_ops <= after.read_ops ==> pool.read_iops.value() * span == ((
            after.read_ops - before.read_ops) * 1_000_000_000) as real
            &&& after.read_ops < before.read_ops ==> pool.read_iops.value() == 0real
            &&& before.write_ops <= after.write_ops ==> pool.write_iops.value() * span == ((
            after.write_ops - before.write_ops) * 1_000_000_000) as real
            &&& after.write_ops < before.write_ops ==> pool.write_iops.value() == 0real
        }),
{
    let elapsed = Duration { nanos: (now.nanos - sample.sampled_at.nanos) as u128 };
    let before = sample.counters;
    assert(elapsed.nanos as real == span);
    law_a_rate_times_its_span_is_the_difference(elapsed, before.read_bytes, counters.read_bytes);
    law_a_rate_times_its_span_is_the_difference(elapsed, before.write_bytes, counters.write_bytes);
    law_a_rate_times_its_span_is_the_difference(elapsed, before.read_ops, counters.read_ops);
    law_a_rate_times_its_span_is_the_difference(elapsed, before.write_ops, counters.write_ops);
}

/// Counters alone tell neither the state nor the capacity nor the errors of a
/// pool.
pub proof fn law_counters_tell_only_rates(
    name: Seq<char>,
    counters: PoolIoCounters,
    now: Instant,
    previous: Option<TimedPoolIoCounters>,
)
    ensures
        ({
            let pool = pool_state(name, counters, now, previous);
            &&& pool.name == name
            &&& pool.state == PoolState::Unknown
            &&& pool.capacity_percent == Quantity::Zero
            &&& pool.error_count == 0
            &&& pool.status == "pool io kstat"@
        }),
{
}

/// A file whose counters can be read is one more reading, under the name of its
/// pool; any other file is none.
pub proof fn law_readings_follow_the_files(files: Seq<PoolFile>, file: PoolFile)
    ensures
        readings(Seq::<PoolFile>::empty()) == Seq::<Reading>::empty(),
        file.io is None ==> readings(files.push(file)) == readings(files),
        file.io is Some && pool_counters(file.io->0@) is None ==> readings(files.push(file))
            == readings(files),
        file.io is Some && pool_counters(file.io->0@) is Some ==> readings(files.push(file))
            == readings(files).push(
            Reading { name: file.name@, counters: pool_counters(file.io->0@)->0 },
        ),
{
    assert(files.push(file).drop_last() =~= files);
}

/// Of each pool the last reading is remembered, with its time; without a reading
/// nothing changes.
pub proof fn law_the_last_reading_is_remembered(
    memory: Memory,
    found: Seq<Reading>,
    reading: Reading,
    now: Instant,
    other: Seq<char>,
)
    ensures
        remembering(memory, Seq::<Reading>::empty(), now) == memory,
        ({
            let before = remembering(memory, found, now);
            let after = remembering(memory, found.push(reading), now);
            &&& after.contains_key(reading.name)
            &&& after[reading.name].sampled_at == now
            &&& after[reading.name].counters == reading.counters
            &&& other != reading.name ==> after.contains_key(other) == before.contains_key(other)
            &&& other != reading.name && before.contains_key(other) ==> after[other]
                == before[other]
        }),
{
    assert(found.push(reading).drop_last() =~= found);
}

/// Every reading gives one pool, under its own name and in its place.
pub proof fn law_every_reading_gives_a_pool(
    memory: Memory,
    found: Seq<Reading>,
    now: Instant,
    i: int,
)
    requires
        0 <= i < found.len(),
    ensures
        sampled_pools(memory, found, now).len() == found.len(),
        sampled_pools(memory, found, now)[i].name == found[i].name,
        sampled_pools(memory, found, now)[i].state == PoolState::Unknown,
        sampled_pools(memory, found, now)[i].capacity_percent == Quantity::Zero,
        sampled_pools(memory, found, now)[i].error_count == 0,
        sampled_pools(memory, found, now)[i].status == "pool io kstat"@,
{
}

/// The first reading of a pool in a sample is compared with what was remembered
/// of it: over that time, each rate is the difference of its own counter.
pub proof fn law_pools_are_compared_with_memory(
    memory: Memory,
    found: Seq<Reading>,
    now: Instant,
    i: int,
    span: real,
)
    requires
        0 <= i < found.len(),
        forall|k: int| 0 <= k < i ==> (#[trigger] found[k]).name != found[i].name,
        memory.contains_key(found[i].name),
        memory[found[i].name].sampled_at.nanos < now.nanos,
        span == (now.nanos - memory[found[i].name].sampled_at.nanos) as real,
    ensures
        ({
            let pool = sampled_pools(memory, found, now)[i];
            let before = memory[found[i].name].counters;
            let after = found[i].counters;
            &&& before.read_bytes <= after.read_bytes ==> pool.read_bytes_per_sec.value() * span
                == ((after.read_bytes - before.read_bytes) * 1_000_000_000) as real
            &&& after.read_bytes < before.read_bytes ==> pool.read_bytes_per_sec.value() == 0real
            &&& before.write_bytes <= after.write_bytes ==> pool.write_bytes_per_sec.value() * span
                == ((after.write_bytes - before.write_bytes) * 1_000_000_000) as real
            &&& after.write_bytes < before.write_bytes ==> pool.write_bytes_per_sec.value() == 0real
            &&& before.read_ops <= after.read_ops ==> pool.read_iops.value() * span == ((
            after.read_ops - before.read_ops) * 1_000_000_000) as real
            &&& after.read_ops < before.read_ops ==> pool.read_iops.value() == 0real
            &&& before.write_ops <= after.write_ops ==> pool.write_iops.value() * span == ((
            after.write_ops - before.write_ops) * 1_000_000_000) as real
            &&& after.write_ops < before.write_ops ==> pool.write_iops.value() == 0real
        }),
{
    let name = found[i].name;
    let earlier = found.take(i);
    assert forall|k: int| 0 <= k < earlier.len() implies (#[trigger] earlier[k]).name != name by {
        assert(found[k].name != name);
    }
    lemma_remembers_others(memory, earlier, now, name);
    law_pool_rates_are_differences_over_time(name, found[i].counters, now, memory[name], span);
}

/// A pool that was not remembered, or was last read at this moment or later, or
/// is read a second time in one sample, has no rates.
pub proof fn law_pools_without_an_earlier_sample_have_no_rates(
    memory: Memory,
    found: Seq<Reading>,
    now: Instant,
    i: int,
)
    requires
        0 <= i < found.len(),
        !memory.contains_key(found[i].name) || memory[found[i].name].sampled_at.nanos >= now.nanos
            || exists|k: int| 0 <= k < i && (#[trigger] found[k]).name == found[i].name,
    ensures
        sampled_pools(memory, found, now)[i].read_bytes_per_sec == Quantity::Zero,
        sampled_pools(memory, found, now)[i].write_bytes_per_sec == Quantity::Zero,
        sampled_pools(memory, found, now)[i].read_iops == Quantity::Zero,
        sampled_pools(memory, found, now)[i].write_iops == Quantity::Zero,
{
    let name = found[i].name;
    let earlier = found.take(i);
    let known = remembering(memory, earlier, now);
    if exists|k: int| 0 <= k < i && (#[trigger] found[k]).name == name {
        let k = choose|k: int| 0 <= k < i && (#[trigger] found[k]).name == name;
        lemma_read_now(memory, earlier, now, k);
        assert(known[name].sampled_at == now);
    } else {
        assert forall|k: int| 0 <= k < earlier.len() implies (#[trigger] earlier[k]).name
            != name by {
            assert(found[k].name != name);
        }
        lemma_remembers_others(memory, earlier, now, name);
    }
}

proof fn lemma_read_now(memory: Memory, found: Seq<Reading>, now: Instant, k: int)
    requires
        0 <= k < found.len(),
    ensures
        remembering(memory, found, now).contains_key(found[k].name),
        remembering(memory, found, now)[found[k].name].sampled_at == now,
    decreases found.len(),
{
    if k < found.len() - 1 {
        lemma_read_now(memory, found.drop_last(), now, k);
        assert(found.drop_last()[k] == found[k]);
    }
}

/// A sample returns each pool that it read, as often as it read it, by name, and
/// remembers exactly the names that it read. Without a listing it returns nothing
/// and forgets nothing.
pub proof fn law_samples_return_what_was_read(
    files: Option<Vec<PoolFile>>,
    now: Instant,
    before: Memory,
    after: Memory,
    pools: Seq<PoolView>,
    name: Seq<char>,
)
    requires
        pools_sampled(files, now, before, after, pools),
    ensures
        files is None ==> pools.len() == 0 && after == before,
        files is Some ==> {
            let found = readings(files->0@);
            &&& pools.len() == found.len()
            &&& pools.to_multiset() == sampled_pools(before, found, now).to_multiset()
            &&& forall|i: int, j: int|
                0 <= i < j < pools.len() ==> ordered(
                    (#[trigger] pools[i]).name,
                    (#[trigger] pools[j]).name,
                )
            &&& after.contains_key(name) <==> exists|i: int|
                0 <= i < found.len() && (#[trigger] found[i]).name == name
            &&& after.contains_key(name) ==> after[name].sampled_at == now && exists|i: int|
                0 <= i < found.len() && (#[trigger] found[i]).name == name && found[i].counters
                    == after[name].counters
        },
{
    if files is Some {
        let found = readings(files->0@);
        law_arrangement_keeps_every_pool(pools, sampled_pools(before, found, now));
        law_memory_holds_what_was_read(found, now);
        if after.contains_key(name) {
            lemma_memory_has_a_source(found, now, name);
        }
    }
}

proof fn lemma_memory_has_a_source(found: Seq<Reading>, now: Instant, name: Seq<char>)
    requires
        remembering(Map::empty(), found, now).contains_key(name),
    ensures
        remembering(Map::empty(), found, now)[name].sampled_at == now,
        exists|i: int|
            0 <= i < found.len() && (#[trigger] found[i]).name == name && found[i].counters
                == remembering(Map::empty(), found, now)[name].counters,
    decreases found.len(),
{
    if found.len() > 0 {
        if found.last().name == name {
            assert(found[found.len() - 1] == found.last());
        } else {
            let rest = found.drop_last();
            lemma_memory_has_a_source(rest, now, name);
            let i = choose|i: int|
                0 <= i < rest.len() && (#[trigger] rest[i]).name == name && rest[i].counters
                    == remembering(Map::empty(), rest, now)[name].counters;
            assert(found[i] == rest[i]);
        }
    }
}

/// Only directories are looked at as pools, and only those among the first 256
/// entries, however many follow.
pub proof fn law_candidates_are_directories_among_the_first(
    kinds: Seq<EntryKind>,
    more: Seq<EntryKind>,
    index: int,
)
    ensures
        is_candidate(kinds, index) <==> 0 <= index < kinds.len() && index < 256 && kinds[index]
            == EntryKind::Directory,
        0 <= index < kinds.len() ==> is_candidate(kinds + more, index) == is_candidate(
            kinds,
            index,
        ),
{
}

} // verus!
