//! Telemetry that is made up, to show the interface without a pool.

use vstd::prelude::*;

use crate::clock::Instant;
use crate::collector::{only_event, single_event, sound_series, sound_snapshot};
use crate::config::CollectorConfig;
use crate::model::{
    pool_views, ArcSnapshot, EventSeverity, PoolSnapshot, PoolState, PoolView, UiSnapshot,
};
use crate::quantity::Quantity;
use crate::series::{lemma_cloned_quantities, windows_of, MetricPoint, TimeSeries};

verus! {

/// The top of the wave that generated numbers follow. A height is counted in
/// parts of it, from nothing to all of it.
pub const WAVE_TOP: u128 = 18_446_744_073_709_551_616;

/// The cache size of generated telemetry: 32 GiB.
pub const MOCK_ARC_BYTES: u64 = 34_359_738_368;

/// The cache target of generated telemetry: 48 GiB.
pub const MOCK_ARC_TARGET_BYTES: u64 = 51_539_607_552;

/// `base` parts out of `scale`, and up to `swing` more with the height of the
/// wave.
pub open spec fn level(base: nat, swing: nat, scale: nat, height: nat) -> Quantity {
    Quantity::Fraction {
        numerator: (base * WAVE_TOP + swing * height) as u128,
        denominator: (scale * WAVE_TOP) as u128,
    }
}

fn level_at(base: u64, swing: u64, scale: u64, height: u128) -> (result: Quantity)
    requires
        height <= WAVE_TOP,
        0 < scale,
        base + swing <= u64::MAX,
    ensures
        result == level(base as nat, swing as nat, scale as nat, height as nat),
        result.well_formed(),
{
    assert(swing * height <= swing * WAVE_TOP) by (nonlinear_arith)
        requires
            height <= WAVE_TOP,
    ;
    Quantity::Fraction {
        numerator: base as u128 * WAVE_TOP + swing as u128 * height,
        denominator: scale as u128 * WAVE_TOP,
    }
}

/// The pool that generated telemetry speaks of, where the wave has `height`. It
/// reads most at the top of the wave and writes most at its bottom.
pub open spec fn mock_pool(height: nat) -> PoolView {
    let depth = (WAVE_TOP - height) as nat;
    PoolView {
        name: "tank"@,
        state: PoolState::Online,
        capacity_percent: level(61, 4, 1, height),
        read_bytes_per_sec: level(80_000_000, 240_000_000, 1, height),
        write_bytes_per_sec: level(40_000_000, 130_000_000, 1, depth),
        read_iops: level(800, 1_200, 1, height),
        write_iops: level(350, 700, 1, depth),
        error_count: 0,
        status: "mock telemetry"@,
    }
}

/// The cache that generated telemetry speaks of.
pub open spec fn mock_arc(height: nat) -> ArcSnapshot {
    ArcSnapshot {
        size_bytes: MOCK_ARC_BYTES,
        target_bytes: MOCK_ARC_TARGET_BYTES,
        hit_ratio: level(94, 3, 100, height),
        miss_ratio: level(3, 3, 100, (WAVE_TOP - height) as nat),
    }
}

/// Generates telemetry without looking at the system.
pub struct MockCollector {
    config: CollectorConfig,
    tick: u64,
    read_history: TimeSeries<Quantity>,
    write_history: TimeSeries<Quantity>,
}

impl MockCollector {
    pub closed spec fn spec_config(&self) -> CollectorConfig {
        self.config
    }

    /// How many samples were begun.
    pub closed spec fn ticks(&self) -> u64 {
        self.tick
    }

    pub closed spec fn spec_read_history(&self) -> TimeSeries<Quantity> {
        self.read_history
    }

    pub closed spec fn spec_write_history(&self) -> TimeSeries<Quantity> {
        self.write_history
    }

    /// The histories keep their lengths and hold nothing that is divided by
    /// zero.
    #[verifier::type_invariant]
    pub closed spec fn well_formed(&self) -> bool {
        &&& self.read_history.standard_windows()
        &&& self.write_history.standard_windows()
        &&& sound_series(self.read_history@)
        &&& sound_series(self.write_history@)
    }

    pub fn new(config: CollectorConfig) -> (result: Self)
        ensures
            result.spec_config() == config,
            result.ticks() == 0,
            result.spec_read_history()@ == windows_of(Seq::<MetricPoint<Quantity>>::empty()),
            result.spec_write_history()@ == windows_of(Seq::<MetricPoint<Quantity>>::empty()),
            result.spec_read_history().standard_windows(),
            result.spec_write_history().standard_windows(),
    {
        MockCollector {
            config,
            tick: 0,
            read_history: TimeSeries::default(),
            write_history: TimeSeries::default(),
        }
    }

    pub fn config(&self) -> (result: &CollectorConfig)
        ensures
            *result == self.spec_config(),
    {
        &self.config
    }

    /// Begins a sample and returns its number, which stays at the largest one.
    pub fn next_tick(&mut self) -> (result: u64)
        ensures
            result == if old(self).ticks() < u64::MAX {
                (old(self).ticks() + 1) as u64
            } else {
                u64::MAX
            },
            final(self).ticks() == result,
            final(self).spec_config() == old(self).spec_config(),
            final(self).spec_read_history() == old(self).spec_read_history(),
            final(self).spec_write_history() == old(self).spec_write_history(),
    {
        proof {
            use_type_invariant(&*self);
        }
        self.tick = self.tick.saturating_add(1);
        self.tick
    }

    /// Makes the snapshot for a height of the wave.
    pub fn next_snapshot(&mut self, now: Instant, height: u128) -> (result: UiSnapshot)
        requires
            height <= WAVE_TOP,
        ensures
            final(self).spec_config() == old(self).spec_config(),
            final(self).ticks() == old(self).ticks(),
            result.generated_at == now,
            result.stale_after == old(self).spec_config().stale_after,
            pool_views(result.pools@) == seq![mock_pool(height as nat)],
            result.arc == mock_arc(height as nat),
            only_event(
                result.events@,
                now,
                EventSeverity::Info,
                "mock collector active; no ZFS commands are being run"@,
            ),
            result.pools@.len() == 1,
            result.pools@[0].name@ == "tank"@,
            result.pools@[0].state == PoolState::Online,
            result.pools@[0].error_count == 0,
            result.pools@[0].status@ == "mock telemetry"@,
            result.events@.len() == 1,
            result.events@[0].timestamp == now,
            result.events@[0].severity == EventSeverity::Info,
            result.events@[0].message@ == "mock collector active; no ZFS commands are being run"@,
            result.read_history.last_minute@.last() == (MetricPoint {
                timestamp: now,
                value: result.pools@[0].read_bytes_per_sec,
            }),
            result.write_history.last_minute@.last() == (MetricPoint {
                timestamp: now,
                value: result.pools@[0].write_bytes_per_sec,
            }),
            final(self).spec_read_history().extends(
                &old(self).spec_read_history(),
                MetricPoint {
                    timestamp: now,
                    value: mock_pool(height as nat).read_bytes_per_sec,
                },
            ),
            final(self).spec_write_history().extends(
                &old(self).spec_write_history(),
                MetricPoint {
                    timestamp: now,
                    value: mock_pool(height as nat).write_bytes_per_sec,
                },
            ),
            result.read_history@ == final(self).spec_read_history()@,
            result.read_history.standard_windows(),
            result.write_history@ == final(self).spec_write_history()@,
            result.write_history.standard_windows(),
            sound_snapshot(result),
    {
        proof {
            use_type_invariant(&*self);
        }
        let depth: u128 = WAVE_TOP - height;
        let read: Quantity = level_at(80_000_000, 240_000_000, 1, height);
        let write: Quantity = level_at(40_000_000, 130_000_000, 1, depth);

        let mut read_history: TimeSeries<Quantity> = TimeSeries::default();
        let mut write_history: TimeSeries<Quantity> = TimeSeries::default();
        std::mem::swap(&mut read_history, &mut self.read_history);
        std::mem::swap(&mut write_history, &mut self.write_history);
        read_history.push(now, read);
        write_history.push(now, write);
        self.read_history = read_history;
        self.write_history = write_history;

        let mut pools: Vec<PoolSnapshot> = Vec::new();
        pools.push(
            PoolSnapshot {
                name: "tank".to_string(),
                state: PoolState::Online,
                capacity_percent: level_at(61, 4, 1, height),
                read_bytes_per_sec: read,
                write_bytes_per_sec: write,
                read_iops: level_at(800, 1_200, 1, height),
                write_iops: level_at(350, 700, 1, depth),
                error_count: 0,
                status: "mock telemetry".to_string(),
            },
        );
        assert(pool_views(pools@) =~= seq![mock_pool(height as nat)]);

        let read_history: TimeSeries<Quantity> = self.read_history.clone();
        let write_history: TimeSeries<Quantity> = self.write_history.clone();
        proof {
            lemma_cloned_quantities(self.read_history@, read_history@);
            lemma_cloned_quantities(self.write_history@, write_history@);
        }
        UiSnapshot {
            generated_at: now,
            stale_after: self.config.stale_after,
            pools,
            arc: ArcSnapshot {
                size_bytes: MOCK_ARC_BYTES,
                target_bytes: MOCK_ARC_TARGET_BYTES,
                hit_ratio: level_at(94, 3, 100, height),
                miss_ratio: level_at(3, 3, 100, depth),
            },
            events: single_event(
                now,
                EventSeverity::Info,
                "mock collector active; no ZFS commands are being run",
            ),
            read_history,
            write_history,
        }
    }
}

proof fn lemma_product(left: nat, right: nat)
    ensures
        (left * right) as real == left as real * right as real,
{
    assert((left * right) as real == left as real * right as real) by (nonlinear_arith);
}

/// A level in real numbers: the base, and the share of the swing that the wave
/// has.
proof fn lemma_level(base: nat, swing: nat, scale: nat, height: nat)
    requires
        height <= WAVE_TOP,
        0 < scale <= u64::MAX,
        base + swing <= u64::MAX,
    ensures
        level(base, swing, scale, height).value() * scale as real == base as real + swing as real
            * (height as real / WAVE_TOP as real),
        0real <= height as real / WAVE_TOP as real <= 1real,
        ((WAVE_TOP - height) as nat) as real / WAVE_TOP as real == 1real - height as real
            / WAVE_TOP as real,
{
    assert(swing * height <= swing * WAVE_TOP) by (nonlinear_arith)
        requires
            height <= WAVE_TOP,
    ;
    let quantity = level(base, swing, scale, height);
    let top = WAVE_TOP as real;
    let b = base as real;
    let w = swing as real;
    let c = scale as real;
    let h = height as real;
    let n = quantity.numerator() as real;
    let d = quantity.denominator() as real;
    assert(quantity.numerator() == base * WAVE_TOP + swing * height);
    lemma_product(swing, height);
    lemma_product(base, WAVE_TOP as nat);
    lemma_product(scale, WAVE_TOP as nat);
    assert(n == b * top + w * h);
    assert(d == c * top);
    assert((n / d) * c == b + w * (h / top)) by (nonlinear_arith)
        requires
            n == b * top + w * h,
            d == c * top,
            top > 0real,
            c > 0real,
    ;
}

/// Generated numbers lie on straight lines between the bottom and the top of
/// the wave: reads between 80 and 320 MB/s, writes between 40 and 170 MB/s,
/// capacity between 61 and 65 percent.
pub proof fn law_mock_numbers_follow_the_wave(height: nat)
    requires
        height <= WAVE_TOP,
    ensures
        ({
            let pool = mock_pool(height);
            let wave = height as real / WAVE_TOP as real;
            &&& 0real <= wave <= 1real
            &&& pool.capacity_percent.value() == 61real + 4real * wave
            &&& pool.read_bytes_per_sec.value() == 80_000_000real + 240_000_000real * wave
            &&& pool.write_bytes_per_sec.value() == 40_000_000real + 130_000_000real * (1real
                - wave)
            &&& pool.read_iops.value() == 800real + 1_200real * wave
            &&& pool.write_iops.value() == 350real + 700real * (1real - wave)
            &&& 61real <= pool.capacity_percent.value() <= 65real
            &&& 80_000_000real <= pool.read_bytes_per_sec.value() <= 320_000_000real
            &&& 40_000_000real <= pool.write_bytes_per_sec.value() <= 170_000_000real
            &&& 800real <= pool.read_iops.value() <= 2_000real
            &&& 350real <= pool.write_iops.value() <= 1_050real
        }),
{
    let depth = (WAVE_TOP - height) as nat;
    lemma_level(61, 4, 1, height);
    lemma_level(80_000_000, 240_000_000, 1, height);
    lemma_level(40_000_000, 130_000_000, 1, depth);
    lemma_level(800, 1_200, 1, height);
    lemma_level(350, 700, 1, depth);
}

/// Hits and misses of the generated cache make up all accesses.
pub proof fn law_mock_ratios_add_up(height: nat)
    requires
        height <= WAVE_TOP,
    ensures
        mock_arc(height).hit_ratio.value() + mock_arc(height).miss_ratio.value() == 1real,
{
    lemma_level(94, 3, 100, height);
    lemma_level(3, 3, 100, (WAVE_TOP - height) as nat);
}

/// The generated cache hits between 94 and 97 percent and misses between 3 and 6,
/// and keeps its size and target.
pub proof fn law_mock_cache_follows_the_wave(height: nat)
    requires
        height <= WAVE_TOP,
    ensures
        ({
            let arc = mock_arc(height);
            let wave = height as real / WAVE_TOP as real;
            &&& arc.hit_ratio.value() * 100real == 94real + 3real * wave
            &&& arc.miss_ratio.value() * 100real == 3real + 3real * (1real - wave)
            &&& arc.size_bytes == 32 * 1024 * 1024 * 1024
            &&& arc.target_bytes == 48 * 1024 * 1024 * 1024
        }),
{
    lemma_level(94, 3, 100, height);
    lemma_level(3, 3, 100, (WAVE_TOP - height) as nat);
}

/// The generated pool is a healthy one, whatever the wave does.
pub proof fn law_mock_pool_is_healthy(height: nat)
    ensures
        mock_pool(height).name == "tank"@,
        mock_pool(height).state == PoolState::Online,
        mock_pool(height).error_count == 0,
        mock_pool(height).status == "mock telemetry"@,
{
}

} // verus!
