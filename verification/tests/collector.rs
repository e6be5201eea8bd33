use zfs_io::clock::{Duration, Instant};
use zfs_io::collector::{LinuxOpenZfsCollector, ProcSample};
use zfs_io::config::CollectorConfig;
use zfs_io::kstat::parse_pool_io;
use zfs_io::mock::{MockCollector, WAVE_TOP};
use zfs_io::model::{EventSeverity, PoolState};
use zfs_io::pools::{
    candidate_pools, pool_snapshot_from_counters, EntryKind, PoolFile, TimedPoolIoCounters,
};
use zfs_io::quantity::Quantity;
use zfs_io::series::TimeSeries;

const ARCSTATS: &str = "\
13 1 0x01 96 26112 8129379000 1234567890123
name                            type data
hits                            4    9000
misses                          4    1000
size                            4    4294967296
c                               4    8589934592
";

const POOL_IO_FIRST: &str = "\
12 3 0x00 1 80 2225326830828 32953476980628
nread    nwritten reads    writes   wtime    wlentime wupdate  rtime    rlentime rupdate  wcnt     rcnt
4096     8192     40       60       0        0        0        0        0        0        0        0
";

const POOL_IO_SECOND: &str = "\
12 3 0x00 1 80 2225326830828 32955476980628
nread    nwritten reads    writes   wtime    wlentime wupdate  rtime    rlentime rupdate  wcnt     rcnt
6144     12288    50       75       0        0        0        0        0        0        0        0
";

fn value(quantity: Quantity) -> f64 {
    match quantity {
        Quantity::Zero => 0.0,
        Quantity::Share { part, total } => part as f64 / total as f64,
        Quantity::Fraction { numerator, denominator } => numerator as f64 / denominator as f64,
        Quantity::PerSecond { count, elapsed } => {
            count as f64 / (elapsed.nanos as f64 / 1_000_000_000.0)
        }
    }
}

fn start() -> Instant {
    Instant { nanos: 3_000_000_000 }
}

fn later(start: Instant, seconds: u64) -> Instant {
    start.checked_add(Duration::from_secs(seconds)).unwrap()
}

fn file(name: &str, io: &str) -> PoolFile {
    PoolFile { name: name.to_string(), io: Some(io.to_string()) }
}

fn counters(read: u64, write: u64) -> String {
    format!("nread nwritten reads writes\n{read} {write} 0 0\n")
}

fn sample(pools: Vec<PoolFile>) -> ProcSample {
    ProcSample { arcstats: Some(ARCSTATS.to_string()), pools: Some(pools) }
}

fn minute_values(series: &TimeSeries<Quantity>) -> Vec<f64> {
    series.last_minute.iter().map(|point| value(point.value)).collect()
}

#[test]
fn default_config_is_low_interference() {
    let config = CollectorConfig::default();
    assert_eq!(config.refresh_interval, Duration::from_secs(1));
    assert_eq!(config.command_timeout, Duration::from_secs(2));
    assert!(config.topology_refresh_interval >= Duration::from_secs(15));
}

#[test]
fn default_config_looks_at_procfs() {
    let config = CollectorConfig::default();
    assert_eq!(config.stale_after, Duration::from_secs(5));
    assert_eq!(config.topology_refresh_interval, Duration::from_secs(30));
    assert_eq!(config.zfs_proc_root, "/proc/spl/kstat/zfs");
}

#[test]
fn options_are_kept_within_bounds() {
    let config = CollectorConfig::from_options(0, 0, 0);
    assert_eq!(config.refresh_interval, Duration::from_millis(250));
    assert_eq!(config.topology_refresh_interval, Duration::from_secs(15));
    assert_eq!(config.command_timeout, Duration::from_millis(250));
    let config = CollectorConfig::from_options(u64::MAX, u64::MAX, u64::MAX);
    assert_eq!(config.refresh_interval, Duration::from_millis(u64::MAX));
    assert_eq!(config.topology_refresh_interval, Duration::from_secs(u64::MAX));
    assert_eq!(config.command_timeout, Duration::from_secs(10));
    let config = CollectorConfig::from_options(1_000, 30, 2_000);
    assert_eq!(config.refresh_interval, Duration::from_secs(1));
    assert_eq!(config.topology_refresh_interval, Duration::from_secs(30));
    assert_eq!(config.command_timeout, Duration::from_secs(2));
    assert_eq!(config.stale_after, Duration::from_secs(5));
}

#[test]
fn pool_io_first_sample_reports_zero_rates_and_records_history() {
    let start = start();
    let counters = parse_pool_io(POOL_IO_FIRST).expect("fixture should include io counters");

    let snapshot = pool_snapshot_from_counters("tank".to_string(), counters, start, None);

    assert_eq!(snapshot.name, "tank");
    assert_eq!(value(snapshot.read_bytes_per_sec), 0.0);
    assert_eq!(value(snapshot.write_bytes_per_sec), 0.0);
    assert_eq!(value(snapshot.read_iops), 0.0);
    assert_eq!(value(snapshot.write_iops), 0.0);
}

#[test]
fn pool_io_second_sample_reports_counter_delta_rates() {
    let start = start();
    let second = later(start, 2);
    let first_counters = parse_pool_io(POOL_IO_FIRST).expect("first fixture should parse");
    let second_counters = parse_pool_io(POOL_IO_SECOND).expect("second fixture should parse");
    let previous = TimedPoolIoCounters {
        sampled_at: start,
        counters: first_counters,
    };

    let snapshot = pool_snapshot_from_counters(
        "tank".to_string(),
        second_counters,
        second,
        Some(previous),
    );

    assert_eq!(value(snapshot.read_bytes_per_sec), 1_024.0);
    assert_eq!(value(snapshot.write_bytes_per_sec), 2_048.0);
    assert_eq!(value(snapshot.read_iops), 5.0);
    assert_eq!(value(snapshot.write_iops), 7.5);
}

#[test]
fn pool_snapshot_fills_in_what_kstats_do_not_say() {
    let counters = parse_pool_io(POOL_IO_FIRST).unwrap();
    let snapshot = pool_snapshot_from_counters("tank".to_string(), counters, start(), None);
    assert_eq!(snapshot.state, PoolState::Unknown);
    assert_eq!(snapshot.capacity_percent, Quantity::Zero);
    assert_eq!(snapshot.error_count, 0);
    assert_eq!(snapshot.status, "pool io kstat");
}

#[test]
fn time_that_stands_still_or_runs_back_gives_no_rates() {
    let first = parse_pool_io(POOL_IO_FIRST).unwrap();
    let second = parse_pool_io(POOL_IO_SECOND).unwrap();
    let previous = TimedPoolIoCounters { sampled_at: later(start(), 1), counters: first };
    for now in [start(), later(start(), 1)] {
        let snapshot =
            pool_snapshot_from_counters("tank".to_string(), second, now, Some(previous));
        assert_eq!(snapshot.read_bytes_per_sec, Quantity::Zero);
        assert_eq!(snapshot.write_iops, Quantity::Zero);
    }
}

#[test]
fn reset_counters_give_rates_of_zero() {
    let first = parse_pool_io(POOL_IO_FIRST).unwrap();
    let second = parse_pool_io(POOL_IO_SECOND).unwrap();
    let previous = TimedPoolIoCounters { sampled_at: start(), counters: second };
    let now = later(start(), 1);
    let snapshot = pool_snapshot_from_counters("tank".to_string(), first, now, Some(previous));
    assert_eq!(
        snapshot.read_bytes_per_sec,
        Quantity::PerSecond { count: 0, elapsed: Duration::from_secs(1) }
    );
    assert_eq!(value(snapshot.write_iops), 0.0);
}

#[test]
fn collector_ring_histories_store_first_and_second_pool_rates() {
    let mut collector = LinuxOpenZfsCollector::new(CollectorConfig::default());
    let first_time = start();
    let first = collector.collect_now(first_time, &sample(vec![file("tank", POOL_IO_FIRST)]));
    let second = collector.collect_now(
        later(first_time, 2),
        &sample(vec![file("tank", POOL_IO_SECOND)]),
    );

    assert_eq!(value(first.pools[0].read_bytes_per_sec), 0.0);
    assert_eq!(value(second.pools[0].read_bytes_per_sec), 1_024.0);
    assert_eq!(second.read_history.last_minute.len(), 2);
    assert_eq!(second.write_history.last_minute.len(), 2);
    assert_eq!(minute_values(&second.read_history), vec![0.0, 1_024.0]);
    assert_eq!(minute_values(&second.write_history), vec![0.0, 2_048.0]);
}

#[test]
fn missing_proc_files_degrade_to_empty_snapshot() {
    let mut collector = LinuxOpenZfsCollector::new(CollectorConfig::default());

    let snapshot =
        collector.collect_now(start(), &ProcSample { arcstats: None, pools: Some(Vec::new()) });

    assert!(snapshot.pools.is_empty());
    assert_eq!(snapshot.arc.size_bytes, 0);
    assert_eq!(snapshot.arc.target_bytes, 0);
    assert_eq!(value(snapshot.arc.hit_ratio), 0.0);
    assert_eq!(value(snapshot.arc.miss_ratio), 0.0);
    assert_eq!(snapshot.events[0].severity, EventSeverity::Warning);
    assert_eq!(snapshot.read_history.last_minute.len(), 1);
    assert_eq!(minute_values(&snapshot.read_history), vec![0.0]);
}

#[test]
fn collector_reports_config_cache_and_event() {
    let config = CollectorConfig::default();
    let mut collector = LinuxOpenZfsCollector::new(config);
    assert_eq!(collector.config().refresh_interval, Duration::from_secs(1));
    let snapshot = collector.collect_now(start(), &sample(vec![file("tank", POOL_IO_FIRST)]));
    assert_eq!(snapshot.generated_at, start());
    assert_eq!(snapshot.stale_after, Duration::from_secs(5));
    assert_eq!(snapshot.arc.target_bytes, 8 * 1024 * 1024 * 1024);
    assert_eq!(snapshot.events.len(), 1);
    assert_eq!(snapshot.events[0].severity, EventSeverity::Info);
    assert_eq!(snapshot.events[0].message, "OpenZFS kstats sampled from procfs");
    let empty = collector.collect_now(start(), &sample(Vec::new()));
    assert_eq!(
        empty.events[0].message,
        "OpenZFS kstats unavailable or no pools found; telemetry is empty"
    );
}

#[test]
fn pools_come_back_by_name_and_add_up() {
    let mut collector = LinuxOpenZfsCollector::new(CollectorConfig::default());
    let first = |read: u64, write: u64| {
        vec![
            file("zeta", &counters(read, write)),
            file("alpha", &counters(read, write)),
            PoolFile { name: "broken".to_string(), io: None },
            file("odd", "no counters here"),
            file("mid", &counters(read, write)),
        ]
    };
    collector.collect_now(start(), &sample(first(100, 200)));
    let snapshot = collector.collect_now(later(start(), 2), &sample(first(110, 260)));
    let names: Vec<&str> = snapshot.pools.iter().map(|pool| pool.name.as_str()).collect();
    assert_eq!(names, vec!["alpha", "mid", "zeta"]);
    let read = snapshot.read_history.last_minute.iter().last().unwrap().value;
    assert_eq!(read, Quantity::PerSecond { count: 30, elapsed: Duration::from_secs(2) });
    assert_eq!(minute_values(&snapshot.write_history), vec![0.0, 90.0]);
}

#[test]
fn pools_of_one_name_keep_their_order() {
    let mut collector = LinuxOpenZfsCollector::new(CollectorConfig::default());
    collector.collect_now(start(), &sample(vec![file("tank", &counters(0, 0))]));
    let snapshot = collector.collect_now(
        later(start(), 1),
        &sample(vec![
            file("tank", &counters(10, 0)),
            file("a", &counters(0, 0)),
            file("tank", &counters(25, 0)),
        ]),
    );
    let names: Vec<&str> = snapshot.pools.iter().map(|pool| pool.name.as_str()).collect();
    assert_eq!(names, vec!["a", "tank", "tank"]);
    assert_eq!(value(snapshot.pools[1].read_bytes_per_sec), 10.0);
    assert_eq!(snapshot.pools[2].read_bytes_per_sec, Quantity::Zero);
    let next = collector.collect_now(
        later(start(), 2),
        &sample(vec![file("tank", &counters(26, 0))]),
    );
    assert_eq!(value(next.pools[0].read_bytes_per_sec), 1.0);
}

#[test]
fn pools_that_vanish_are_forgotten() {
    let mut collector = LinuxOpenZfsCollector::new(CollectorConfig::default());
    collector.collect_now(start(), &sample(vec![file("tank", &counters(0, 0))]));
    collector.collect_now(later(start(), 1), &sample(Vec::new()));
    let back =
        collector.collect_now(later(start(), 2), &sample(vec![file("tank", &counters(9, 9))]));
    assert_eq!(back.pools[0].read_bytes_per_sec, Quantity::Zero);
}

#[test]
fn an_unreadable_directory_forgets_nothing() {
    let mut collector = LinuxOpenZfsCollector::new(CollectorConfig::default());
    collector.collect_now(start(), &sample(vec![file("tank", &counters(0, 0))]));
    let missing =
        collector.collect_now(later(start(), 1), &ProcSample { arcstats: None, pools: None });
    assert!(missing.pools.is_empty());
    let back =
        collector.collect_now(later(start(), 2), &sample(vec![file("tank", &counters(8, 6))]));
    assert_eq!(value(back.pools[0].read_bytes_per_sec), 4.0);
    assert_eq!(minute_values(&back.write_history), vec![0.0, 0.0, 3.0]);
}

#[test]
fn only_directories_among_the_first_entries_are_pools() {
    let kinds = vec![
        EntryKind::Other,
        EntryKind::Directory,
        EntryKind::Unreadable,
        EntryKind::Directory,
    ];
    assert_eq!(candidate_pools(&kinds), vec![1, 3]);
    let many = vec![EntryKind::Directory; 300];
    assert_eq!(candidate_pools(&many), (0..256).collect::<Vec<usize>>());
}

#[test]
fn mock_collector_reports_generated_numbers() {
    let mut collector = MockCollector::new(CollectorConfig::default());
    assert_eq!(collector.config().stale_after, Duration::from_secs(5));
    assert_eq!(collector.next_tick(), 1);
    assert_eq!(collector.next_tick(), 2);
    let snapshot = collector.next_snapshot(start(), 0);
    assert_eq!(snapshot.generated_at, start());
    assert_eq!(snapshot.pools.len(), 1);
    assert_eq!(snapshot.pools[0].name, "tank");
    assert_eq!(snapshot.pools[0].state, PoolState::Online);
    assert_eq!(snapshot.pools[0].error_count, 0);
    assert_eq!(snapshot.pools[0].status, "mock telemetry");
    assert_eq!(snapshot.arc.size_bytes, 32 * 1024 * 1024 * 1024);
    assert_eq!(snapshot.arc.target_bytes, 48 * 1024 * 1024 * 1024);
    assert_eq!(snapshot.events[0].severity, EventSeverity::Info);
    assert_eq!(
        snapshot.events[0].message,
        "mock collector active; no ZFS commands are being run"
    );
    let again = collector.next_snapshot(later(start(), 1), WAVE_TOP);
    assert_eq!(minute_values(&again.read_history), vec![80e6, 320e6]);
    assert_eq!(minute_values(&again.write_history), vec![170e6, 40e6]);
}

#[test]
fn mock_numbers_follow_the_wave() {
    let mut collector = MockCollector::new(CollectorConfig::default());
    for (height, wave) in [(0, 0.0), (WAVE_TOP / 4, 0.25), (WAVE_TOP / 2, 0.5), (WAVE_TOP, 1.0)] {
        let snapshot = collector.next_snapshot(start(), height);
        let pool = &snapshot.pools[0];
        assert_eq!(value(pool.capacity_percent), 61.0 + wave * 4.0);
        assert_eq!(value(pool.read_bytes_per_sec), 80_000_000.0 + wave * 240_000_000.0);
        assert_eq!(value(pool.write_bytes_per_sec), 40_000_000.0 + (1.0 - wave) * 130_000_000.0);
        assert_eq!(value(pool.read_iops), 800.0 + wave * 1_200.0);
        assert_eq!(value(pool.write_iops), 350.0 + (1.0 - wave) * 700.0);
        let hits = value(snapshot.arc.hit_ratio);
        let misses = value(snapshot.arc.miss_ratio);
        assert!((hits - (0.94 + wave * 0.03)).abs() < 1e-12);
        assert!((hits + misses - 1.0).abs() < 1e-12);
    }
}

#[test]
fn mock_history_keeps_the_last_minute() {
    let mut collector = MockCollector::new(CollectorConfig::default());
    for sample in 1..=70u64 {
        assert_eq!(collector.next_tick(), sample);
        let snapshot = collector.next_snapshot(later(start(), sample), sample as u128);
        assert_eq!(snapshot.read_history.last_minute.len(), sample.min(60) as usize);
        let newest = snapshot.read_history.last_minute.iter().last().unwrap();
        assert_eq!(newest.timestamp, later(start(), sample));
        assert_eq!(newest.value, snapshot.pools[0].read_bytes_per_sec);
    }
}
