use zfs_io::kstat::{
    column_u64, empty_arc_snapshot, parse_arc_snapshot, parse_kstat_rows, parse_pool_io,
    PoolIoCounters,
};
use zfs_io::quantity::{bytes_per_second, ratio, Quantity};
use zfs_io::clock::Duration;
use zfs_io::text::{decimal_string, in_order, parse_number, split_lines, split_words, white_space};

const ARCSTATS: &str = "\
13 1 0x01 96 26112 8129379000 1234567890123
name                            type data
hits                            4    9000
misses                          4    1000
size                            4    4294967296
c                               4    8589934592
";

fn value(quantity: Quantity) -> f64 {
    match quantity {
        Quantity::Zero => 0.0,
        Quantity::Share { part, total } => part as f64 / total as f64,
        Quantity::Fraction { numerator, denominator } => numerator as f64 / denominator as f64,
        Quantity::PerSecond { count, elapsed } => {
            count as f64 / (elapsed.nanos as f64 / 1_000_000_000.0)
        }
    }
}

fn per_second(count: u128) -> Quantity {
    Quantity::PerSecond { count, elapsed: Duration::from_secs(1) }
}

#[test]
fn formats_byte_rates() {
    assert_eq!(bytes_per_second(per_second(1_048_576)), "1.0 MiB/s");
}

#[test]
fn byte_rates_pick_the_largest_unit() {
    assert_eq!(bytes_per_second(Quantity::Zero), "0.0 B/s");
    assert_eq!(bytes_per_second(per_second(1_023)), "1023.0 B/s");
    assert_eq!(bytes_per_second(per_second(1_024)), "1.0 KiB/s");
    assert_eq!(bytes_per_second(per_second(1_536)), "1.5 KiB/s");
    assert_eq!(bytes_per_second(per_second(1_048_575)), "1024.0 KiB/s");
    assert_eq!(bytes_per_second(per_second(1 << 30)), "1.0 GiB/s");
    assert_eq!(bytes_per_second(per_second(1 << 40)), "1.0 TiB/s");
    assert_eq!(bytes_per_second(per_second(1 << 50)), "1024.0 TiB/s");
}

#[test]
fn byte_rates_round_to_one_decimal() {
    for (count, millis) in [(1u64, 4u64), (3, 4_000), (7, 3_000), (5_000, 1_700)] {
        let quantity = Quantity::PerSecond {
            count: count as u128,
            elapsed: Duration::from_millis(millis),
        };
        let mut size = value(quantity);
        let mut unit = "B/s";
        if size >= 1024.0 {
            size /= 1024.0;
            unit = "KiB/s";
        }
        assert_eq!(bytes_per_second(quantity), format!("{size:.1} {unit}"));
    }
    let quarter = Quantity::Share { part: 1, total: 4 };
    assert_eq!(bytes_per_second(quarter), format!("{:.1} B/s", 0.25));
    let three_quarters = Quantity::Share { part: 3, total: 4 };
    assert_eq!(bytes_per_second(three_quarters), format!("{:.1} B/s", 0.75));
}

#[test]
fn exact_ties_round_to_the_even_tenth() {
    let twentieths = |numerator: u128| Quantity::Fraction { numerator, denominator: 20 };
    assert_eq!(bytes_per_second(twentieths(1)), "0.0 B/s");
    assert_eq!(bytes_per_second(twentieths(3)), "0.2 B/s");
    assert_eq!(bytes_per_second(twentieths(7)), "0.4 B/s");
}

#[test]
fn a_rate_1024_times_as_large_shows_the_same_number() {
    let units = ["B/s", "KiB/s", "MiB/s", "GiB/s", "TiB/s"];
    for (numerator, number) in [(2u128, "1.0"), (3, "1.5"), (2_047, "1023.5"), (1_333, "666.5")] {
        let mut quantity = Quantity::Fraction { numerator, denominator: 2 };
        for unit in units {
            assert_eq!(bytes_per_second(quantity), format!("{number} {unit}"));
            if let Quantity::Fraction { numerator, denominator } = quantity {
                quantity = Quantity::Fraction { numerator: numerator * 1024, denominator };
            }
        }
    }
}

#[test]
fn parses_kstat_rows_from_arcstats_fixture() {
    let rows = parse_kstat_rows(ARCSTATS);

    assert_eq!(rows.get("hits"), Some(&9_000));
    assert_eq!(rows.get("misses"), Some(&1_000));
    assert_eq!(rows.get("size"), Some(&(4 * 1024 * 1024 * 1024)));
    assert_eq!(rows.get("c"), Some(&(8 * 1024 * 1024 * 1024)));
    assert!(!rows.contains_key("name"));
}

#[test]
fn kstat_rows_skip_what_they_cannot_read() {
    let rows = parse_kstat_rows("a 4 1\r\nb 4\nc 4 5 6\nd 4 -7\ne 4 x\n\nname 4 8\na 4 9");
    assert_eq!(rows.len(), 1);
    assert_eq!(rows.get("a"), Some(&9));
}

#[test]
fn computes_arc_hit_and_miss_ratios_from_counters() {
    let arc = parse_arc_snapshot(ARCSTATS);

    assert_eq!(arc.size_bytes, 4 * 1024 * 1024 * 1024);
    assert_eq!(arc.target_bytes, 8 * 1024 * 1024 * 1024);
    assert_eq!(value(arc.hit_ratio), 0.9);
    assert_eq!(value(arc.miss_ratio), 0.1);
}

#[test]
fn zeroes_arc_ratios_when_access_counters_are_absent() {
    let arc = parse_arc_snapshot(
        "name                            type data\nsize                            4    1024\nc                               4    2048\n",
    );

    assert_eq!(value(arc.hit_ratio), 0.0);
    assert_eq!(value(arc.miss_ratio), 0.0);
}

#[test]
fn arc_target_has_a_second_name() {
    let arc = parse_arc_snapshot("target_size 4 77\n");
    assert_eq!(arc.target_bytes, 77);
    let arc = parse_arc_snapshot("target_size 4 77\nc 4 78\n");
    assert_eq!(arc.target_bytes, 78);
}

#[test]
fn arc_accesses_saturate() {
    let arc = parse_arc_snapshot("hits 4 18446744073709551615\nmisses 4 1\n");
    assert_eq!(arc.hit_ratio, Quantity::Share { part: u64::MAX, total: u64::MAX });
    assert_eq!(arc.miss_ratio, Quantity::Share { part: 1, total: u64::MAX });
}

#[test]
fn nothing_is_known_of_an_unreadable_cache() {
    let arc = empty_arc_snapshot();
    assert_eq!(arc.size_bytes, 0);
    assert_eq!(arc.target_bytes, 0);
    assert_eq!(arc.hit_ratio, Quantity::Zero);
    assert_eq!(arc.miss_ratio, Quantity::Zero);
}

#[test]
fn ratios_avoid_division_by_zero() {
    assert_eq!(ratio(5, 0), Quantity::Zero);
    assert_eq!(ratio(1, 4), Quantity::Share { part: 1, total: 4 });
}

#[test]
fn pool_io_columns_are_found_by_name() {
    let text = "# comment nread\n\n  junk line\n  writes reads nread nwritten\n\n#x\n 1 +2 3 4 5\n";
    assert_eq!(
        parse_pool_io(text),
        Some(PoolIoCounters { read_bytes: 3, write_bytes: 4, read_ops: 2, write_ops: 1 })
    );
}

#[test]
fn pool_io_without_all_columns_gives_nothing() {
    assert_eq!(parse_pool_io(""), None);
    assert_eq!(parse_pool_io("nwritten reads writes\n1 2 3\n"), None);
    assert_eq!(parse_pool_io("nread nwritten reads writes\n"), None);
    assert_eq!(parse_pool_io("nread nwritten reads\n1 2 3\n"), None);
    assert_eq!(parse_pool_io("nread nwritten reads writes\n1 2 3\n"), None);
    assert_eq!(parse_pool_io("nread nwritten reads writes\n1 2 x 4\n"), None);
    assert_eq!(parse_pool_io("nread nwritten reads writes\n1 2 18446744073709551616 4\n"), None);
}

#[test]
fn columns_take_the_first_heading() {
    let headers = vec!["a".to_string(), "b".to_string(), "a".to_string()];
    let columns = vec!["1".to_string(), "2".to_string()];
    assert_eq!(column_u64(&headers, &columns, "a"), Some(1));
    assert_eq!(column_u64(&headers, &columns, "b"), Some(2));
    assert_eq!(column_u64(&headers, &columns, "c"), None);
    let headers = vec!["x".to_string(), "y".to_string(), "z".to_string()];
    assert_eq!(column_u64(&headers, &columns, "z"), None);
}

#[test]
fn numbers_read_as_the_standard_library_reads_them() {
    for word in [
        "", "+", "-", "0", "+0", "00012", "+42", "-1", "++1", "1+", "18446744073709551615",
        "18446744073709551616", "99999999999999999999", "1_000", "0x10", " 1", "\u{0661}",
        "00000000000000000000000000001",
    ] {
        assert_eq!(parse_number(word), word.parse::<u64>().ok(), "{word:?}");
    }
}

#[test]
fn decimals_read_back() {
    for number in [0u64, 7, 10, 99, 1_000, 1_234_567_890, u64::MAX] {
        let text = decimal_string(number as u128);
        assert_eq!(text, number.to_string());
        assert_eq!(parse_number(&text), Some(number));
    }
}

#[test]
fn white_space_is_that_of_the_standard_library() {
    for code in 0..=0x10ffffu32 {
        if let Some(c) = char::from_u32(code) {
            assert_eq!(white_space(c), c.is_whitespace(), "{code:x}");
        }
    }
}

#[test]
fn words_are_those_of_the_standard_library() {
    for line in ["", " ", "a", " a  bc\t", "a\u{a0}b\u{3000}\u{e9}\r", "x\u{2003}y z"] {
        let characters: Vec<char> = line.chars().collect();
        let expected: Vec<&str> = line.split_whitespace().collect();
        assert_eq!(split_words(&characters), expected);
    }
}

#[test]
fn lines_join_to_the_text() {
    for text in ["", "\n", "a", "a\n", "a\nb", "\n\na\r\nb\n"] {
        let joined: Vec<String> =
            split_lines(text).into_iter().map(|line| line.into_iter().collect()).collect();
        assert_eq!(joined.join("\n"), text);
        assert!(joined.iter().all(|line| !line.contains('\n')));
    }
}

#[test]
fn texts_are_ordered_like_strings() {
    let texts = ["", "a", "ab", "b", "tank", "tank2", "Tank", "\u{e9}", "\u{10ffff}", "\u{ffff}"];
    for left in texts {
        for right in texts {
            assert_eq!(in_order(left, right), left <= right);
        }
    }
}
