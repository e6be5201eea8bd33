use zfs_io::clock::{Duration, Instant};
use zfs_io::model::{ArcSnapshot, EventRecord, EventSeverity, PoolState, UiSnapshot};
use zfs_io::quantity::Quantity;
use zfs_io::ring::RingBuffer;
use zfs_io::series::TimeSeries;

fn later(start: Instant, seconds: u64) -> Instant {
    start.checked_add(Duration::from_secs(seconds)).unwrap()
}

fn empty_snapshot(generated_at: Instant, stale_after: Duration) -> UiSnapshot {
    UiSnapshot {
        generated_at,
        stale_after,
        pools: Vec::new(),
        arc: ArcSnapshot { size_bytes: 0, target_bytes: 0, hit_ratio: Quantity::Zero, miss_ratio: Quantity::Zero },
        events: Vec::new(),
        read_history: TimeSeries::default(),
        write_history: TimeSeries::default(),
    }
}

#[test]
fn ring_buffer_drops_oldest_values() {
    let mut buffer = RingBuffer::new(2);
    buffer.push(1);
    buffer.push(2);
    buffer.push(3);

    assert_eq!(buffer.iter().copied().collect::<Vec<_>>(), vec![2, 3]);
}

#[test]
fn ring_buffer_never_exceeds_its_capacity() {
    let mut buffer = RingBuffer::new(3);
    assert!(buffer.is_empty());
    for value in 0..10 {
        buffer.push(value);
        assert!(buffer.len() <= 3);
        assert!(!buffer.is_empty());
    }
    assert_eq!(buffer.iter().copied().collect::<Vec<_>>(), vec![7, 8, 9]);
}

#[test]
fn ring_buffer_of_one_keeps_the_last_value() {
    let mut buffer = RingBuffer::new(1);
    buffer.push("a");
    buffer.push("b");
    assert_eq!(buffer.iter().copied().collect::<Vec<_>>(), vec!["b"]);
}

#[test]
fn cloned_ring_buffer_is_independent() {
    let mut buffer = RingBuffer::new(2);
    buffer.push(1);
    buffer.push(2);
    let mut copy = buffer.clone();
    copy.push(3);
    assert_eq!(buffer.iter().copied().collect::<Vec<_>>(), vec![1, 2]);
    assert_eq!(copy.iter().copied().collect::<Vec<_>>(), vec![2, 3]);
}

#[test]
fn ring_buffers_of_strings_can_be_cloned() {
    let mut buffer: RingBuffer<String> = RingBuffer::new(2);
    for word in ["a", "b", "c"] {
        buffer.push(word.to_string());
    }
    let copy = buffer.clone();
    assert_eq!(copy.iter().cloned().collect::<Vec<String>>(), vec!["b", "c"]);
}

#[test]
fn cloned_series_keep_points_and_lengths() {
    let mut series: TimeSeries<u64> = TimeSeries::default();
    for index in 0..60 {
        series.push(later(Instant { nanos: 0 }, index), index);
    }
    let mut copy = series.clone();
    assert_eq!(copy.minute_values(), series.minute_values());
    copy.push(later(Instant { nanos: 0 }, 60), 60);
    assert_eq!(copy.last_minute.len(), 60);
    assert_eq!(copy.last_five_minutes.len(), 61);
    assert_eq!(series.last_five_minutes.len(), 60);
}

#[test]
fn time_series_keeps_minute_history() {
    let mut series = TimeSeries::default();
    let start = Instant { nanos: 17 };

    for index in 0..65 {
        series.push(later(start, index), index as f64);
    }

    assert_eq!(series.last_minute.len(), 60);
    assert_eq!(
        series.minute_values().first().map(|(_, value)| *value),
        Some(5.0)
    );
}

#[test]
fn time_series_windows_have_three_lengths() {
    let mut series = TimeSeries::default();
    let start = Instant { nanos: 0 };
    for index in 0..4_000u64 {
        series.push(later(start, index), index);
    }
    assert_eq!(series.last_minute.len(), 60);
    assert_eq!(series.last_five_minutes.len(), 300);
    assert_eq!(series.last_hour.len(), 3_600);
    let hour: Vec<u64> = series.last_hour.iter().map(|point| point.value).collect();
    let five: Vec<u64> = series.last_five_minutes.iter().map(|point| point.value).collect();
    let minute: Vec<u64> = series.last_minute.iter().map(|point| point.value).collect();
    assert_eq!(hour[3_300..], five[..]);
    assert_eq!(five[240..], minute[..]);
    assert_eq!(minute.last(), Some(&3_999));
}

#[test]
fn minute_values_count_from_the_first_point() {
    let mut series = TimeSeries::default();
    assert!(series.minute_values().is_empty());
    let start = Instant { nanos: 5_000_000_000 };
    series.push(start, 1.5);
    series.push(later(start, 2), 2.5);
    series.push(Instant { nanos: 0 }, 3.5);
    assert_eq!(
        series.minute_values(),
        vec![
            (Duration { nanos: 0 }, 1.5),
            (Duration { nanos: 2_000_000_000 }, 2.5),
            (Duration { nanos: 0 }, 3.5),
        ]
    );
}

#[test]
fn pool_states_have_names() {
    assert_eq!(PoolState::Online.as_str(), "ONLINE");
    assert_eq!(PoolState::Degraded.as_str(), "DEGRADED");
    assert_eq!(PoolState::Faulted.as_str(), "FAULTED");
    assert_eq!(PoolState::Unknown.as_str(), "UNKNOWN");
}

#[test]
fn severities_have_names() {
    assert_eq!(EventSeverity::Info.as_str(), "info");
    assert_eq!(EventSeverity::Warning.as_str(), "warn");
    assert_eq!(EventSeverity::Error.as_str(), "error");
}

#[test]
fn snapshots_become_stale() {
    let start = Instant { nanos: 1_000_000_000 };
    let snapshot = empty_snapshot(start, Duration::from_secs(5));
    assert!(!snapshot.is_stale(start));
    assert!(!snapshot.is_stale(later(start, 5)));
    assert!(snapshot.is_stale(Instant { nanos: 6_000_000_001 }));
    assert!(!snapshot.is_stale(Instant { nanos: 0 }));
}

#[test]
fn cloned_snapshots_say_the_same() {
    let mut snapshot = empty_snapshot(Instant { nanos: 3 }, Duration::from_secs(5));
    snapshot.events.push(EventRecord {
        timestamp: Instant { nanos: 3 },
        severity: EventSeverity::Error,
        message: "checksum".to_string(),
    });
    snapshot.read_history.push(Instant { nanos: 3 }, Quantity::Share { part: 5, total: 2 });
    assert_eq!(format!("{:?}", snapshot.clone()), format!("{snapshot:?}"));
}

#[test]
fn instants_measure_time() {
    let early = Instant { nanos: 10 };
    let late = Instant { nanos: 25 };
    assert_eq!(late.checked_duration_since(early), Some(Duration { nanos: 15 }));
    assert_eq!(early.checked_duration_since(late), None);
    assert_eq!(early.duration_since(late), Duration { nanos: 0 });
    assert_eq!(late.duration_since(early), Duration { nanos: 15 });
    assert_eq!(Instant { nanos: u64::MAX }.checked_add(Duration { nanos: 1 }), None);
    assert_eq!(Duration::from_millis(250).nanos, 250_000_000);
    assert!(Duration::from_secs(0).is_zero());
    assert!(!Duration::from_secs(u64::MAX).is_zero());
}
