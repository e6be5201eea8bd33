//! The statistics files that OpenZFS offers under procfs.

use vstd::hash_map::StringHashMap;
use vstd::prelude::*;

use crate::model::ArcSnapshot;
use crate::quantity::{law_ratios_are_quotients, ratio, spec_ratio, Quantity};
use crate::text::{
    contents, decimal, is_white_space, is_word, law_a_word_is_one_word, law_decimal_reads_back,
    law_decimals_are_words, law_lines_follow_line_feeds, law_text_without_line_feed_is_one_line,
    law_words_are_solid, law_words_follow_white_space, lines, number, parse_number, runs, same_text,
    split_lines, split_words, words,
};

verus! {

/// How much of a statistics file is read at most, in bytes.
pub const MAX_KSTAT_BYTES: u64 = 1024 * 1024;

/// The counter that a line of a named statistics file states: three words, of
/// which the first is the name and the last the value. The line of headings is
/// none.
pub open spec fn row_entry(row: Seq<Seq<char>>) -> Option<(Seq<char>, u64)> {
    if row.len() == 3 && row[0] != "name"@ {
        match number(row[2]) {
            Some(value) => Some((row[0], value)),
            None => None,
        }
    } else {
        None
    }
}

/// The counters that a list of lines states. Of two lines with one name the
/// later one counts.
pub open spec fn entries(rows: Seq<Seq<char>>) -> Map<Seq<char>, u64>
    decreases rows.len(),
{
    if rows.len() == 0 {
        Map::<Seq<char>, u64>::empty()
    } else {
        let before = entries(rows.drop_last());
        match row_entry(words(rows.last())) {
            Some(entry) => before.insert(entry.0, entry.1),
            None => before,
        }
    }
}

/// The counters of a named statistics file.
pub open spec fn kstat_rows(text: Seq<char>) -> Map<Seq<char>, u64> {
    entries(lines(text))
}

/// Reads the counters of a named statistics file such as `arcstats`.
pub fn parse_kstat_rows(text: &str) -> (result: StringHashMap<u64>)
    ensures
        result@ == kstat_rows(text@),
{
    let rows: Vec<Vec<char>> = split_lines(text);
    let mut result: StringHashMap<u64> = StringHashMap::new();
    let mut i: usize = 0;
    assert(runs(rows@).take(0) == Seq::<Seq<char>>::empty());
    while i < rows.len()
        invariant
            i <= rows.len(),
            runs(rows@) == lines(text@),
            result@ == entries(lines(text@).take(i as int)),
        decreases rows.len() - i,
    {
        let row: Vec<String> = split_words(&rows[i]);
        let ghost seen = lines(text@).take(i + 1);
        assert(seen.drop_last() == lines(text@).take(i as int));
        assert(seen.last() == rows[i as int]@);
        let ghost fields = contents(row@);
        if row.len() == 3 {
            assert(fields[0] == row[0]@ && fields[2] == row[2]@);
            if !same_text(&row[0], "name") {
                match parse_number(row[2].as_str()) {
                    Some(value) => {
                        result.insert(row[0].clone(), value);
                    },
                    None => {},
                }
            }
        }
        i += 1;
    }
    assert(lines(text@).take(lines(text@).len() as int) == lines(text@));
    result
}

/// The value of a counter, zero where the file does not state it.
pub open spec fn counter(rows: Map<Seq<char>, u64>, name: Seq<char>) -> u64 {
    if rows.contains_key(name) {
        rows[name]
    } else {
        0
    }
}

/// The target size of the cache, under its usual name or its long one.
pub open spec fn target_size(rows: Map<Seq<char>, u64>) -> u64 {
    if rows.contains_key("c"@) {
        rows["c"@]
    } else {
        counter(rows, "target_size"@)
    }
}

/// The number of accesses, hits and misses together, as far as 64 bits reach.
pub open spec fn accesses(rows: Map<Seq<char>, u64>) -> u64 {
    let sum = counter(rows, "hits"@) + counter(rows, "misses"@);
    if sum <= u64::MAX {
        sum as u64
    } else {
        u64::MAX
    }
}

/// The state of the cache that a set of counters describes.
pub open spec fn arc_state(rows: Map<Seq<char>, u64>) -> ArcSnapshot {
    ArcSnapshot {
        size_bytes: counter(rows, "size"@),
        target_bytes: target_size(rows),
        hit_ratio: spec_ratio(counter(rows, "hits"@), accesses(rows)),
        miss_ratio: spec_ratio(counter(rows, "misses"@), accesses(rows)),
    }
}

fn counter_of(rows: &StringHashMap<u64>, name: &str) -> (result: u64)
    ensures
        result == counter(rows@, name@),
{
    match rows.get(name) {
        Some(value) => *value,
        None => 0,
    }
}

/// Reads the state of the cache from the contents of `arcstats`.
pub fn parse_arc_snapshot(text: &str) -> (result: ArcSnapshot)
    ensures
        result == arc_state(kstat_rows(text@)),
        result.hit_ratio.well_formed(),
        result.miss_ratio.well_formed(),
        ({
            let rows = kstat_rows(text@);
            let hits = if rows.contains_key("hits"@) {
                rows["hits"@]
            } else {
                0
            };
            let misses = if rows.contains_key("misses"@) {
                rows["misses"@]
            } else {
                0
            };
            &&& 0 < hits + misses <= u64::MAX ==> result.hit_ratio.value() * (hits
                + misses) as real == hits as real
            &&& 0 < hits + misses <= u64::MAX ==> result.miss_ratio.value() * (hits
                + misses) as real == misses as real
            &&& rows.contains_key("size"@) ==> result.size_bytes == rows["size"@]
            &&& rows.contains_key("c"@) ==> result.target_bytes == rows["c"@]
        }),
{
    let rows: StringHashMap<u64> = parse_kstat_rows(text);
    let hits: u64 = counter_of(&rows, "hits");
    let misses: u64 = counter_of(&rows, "misses");
    proof {
        law_arc_state_comes_from_its_rows(kstat_rows(text@), hits, misses);
    }
    let accesses: u64 = hits.saturating_add(misses);
    let target_bytes: u64 = match rows.get("c") {
        Some(value) => *value,
        None => counter_of(&rows, "target_size"),
    };
    ArcSnapshot {
        size_bytes: counter_of(&rows, "size"),
        target_bytes,
        hit_ratio: ratio(hits, accesses),
        miss_ratio: ratio(misses, accesses),
    }
}

/// What is shown of the cache when nothing is known of it.
pub fn empty_arc_snapshot() -> (result: ArcSnapshot)
    ensures
        result == no_arc_state(),
        result.size_bytes == 0,
        result.target_bytes == 0,
        result.hit_ratio == Quantity::Zero,
        result.miss_ratio == Quantity::Zero,
{
    ArcSnapshot {
        size_bytes: 0,
        target_bytes: 0,
        hit_ratio: Quantity::Zero,
        miss_ratio: Quantity::Zero,
    }
}

pub open spec fn no_arc_state() -> ArcSnapshot {
    ArcSnapshot {
        size_bytes: 0,
        target_bytes: 0,
        hit_ratio: Quantity::Zero,
        miss_ratio: Quantity::Zero,
    }
}

/// The input and output counters of a pool since it was imported.
#[derive(Debug, Clone, Copy, PartialEq, Eq, Structural)]
pub struct PoolIoCounters {
    pub read_bytes: u64,
    pub write_bytes: u64,
    pub read_ops: u64,
    pub write_ops: u64,
}

/// The contents of a list of rows of strings.
pub open spec fn table(rows: Seq<Vec<String>>) -> Seq<Seq<Seq<char>>> {
    rows.map_values(|row: Vec<String>| contents(row@))
}

/// A line that is neither blank nor a comment.
pub open spec fn is_data(row: Seq<Seq<char>>) -> bool {
    row.len() > 0 && row[0][0] != '#'
}

/// The words of the lines that are neither blank nor comments.
pub open spec fn data_rows(rows: Seq<Seq<char>>) -> Seq<Seq<Seq<char>>>
    decreases rows.len(),
{
    if rows.len() == 0 {
        Seq::<Seq<Seq<char>>>::empty()
    } else if is_data(words(rows.last())) {
        data_rows(rows.drop_last()).push(words(rows.last()))
    } else {
        data_rows(rows.drop_last())
    }
}

/// The first place at or after `from` at which `name` stands in `row`, or the
/// end of the row.
pub open spec fn place_of(row: Seq<Seq<char>>, name: Seq<char>, from: nat) -> nat
    decreases row.len() - from,
{
    if from >= row.len() {
        row.len()
    } else if row[from as int] == name {
        from
    } else {
        place_of(row, name, from + 1)
    }
}

/// The first row at or after `from` that has a column `name`, or the end of the
/// table.
pub open spec fn heading_of(rows: Seq<Seq<Seq<char>>>, name: Seq<char>, from: nat) -> nat
    decreases rows.len() - from,
{
    if from >= rows.len() {
        rows.len()
    } else if rows[from as int].contains(name) {
        from
    } else {
        heading_of(rows, name, from + 1)
    }
}

/// The number in the first column that is headed `name`.
pub open spec fn column(
    headers: Seq<Seq<char>>,
    columns: Seq<Seq<char>>,
    name: Seq<char>,
) -> Option<u64> {
    let place = place_of(headers, name, 0);
    if place < headers.len() && place < columns.len() {
        number(columns[place as int])
    } else {
        None
    }
}

/// The counters in a row of values under a row of headings.
pub open spec fn row_counters(
    headers: Seq<Seq<char>>,
    columns: Seq<Seq<char>>,
) -> Option<PoolIoCounters> {
    match (
        column(headers, columns, "nread"@),
        column(headers, columns, "nwritten"@),
        column(headers, columns, "reads"@),
        column(headers, columns, "writes"@),
    ) {
        (Some(read_bytes), Some(write_bytes), Some(read_ops), Some(write_ops)) => Some(
            PoolIoCounters { read_bytes, write_bytes, read_ops, write_ops },
        ),
        _ => None,
    }
}

/// The counters in the contents of a pool's `io` file: the row below the first
/// one that has a column `nread`.
pub open spec fn pool_counters(text: Seq<char>) -> Option<PoolIoCounters> {
    let rows = data_rows(lines(text));
    let heading = heading_of(rows, "nread"@, 0);
    if heading + 1 < rows.len() {
        row_counters(rows[heading as int], rows[heading as int + 1])
    } else {
        None
    }
}

/// The index of the first of `headers` that is `name`.
fn position(headers: &Vec<String>, name: &str) -> (result: Option<usize>)
    ensures
        match result {
            Some(index) => index < headers@.len() && index == place_of(
                contents(headers@),
                name@,
                0,
            ),
            None => place_of(contents(headers@), name@, 0) == headers@.len() && !contents(
                headers@,
            ).contains(name@),
        },
        result is Some ==> contents(headers@).contains(name@),
{
    let ghost names = contents(headers@);
    let mut i: usize = 0;
    while i < headers.len()
        invariant
            names == contents(headers@),
            i <= headers@.len(),
            place_of(names, name@, 0) == place_of(names, name@, i as nat),
            forall|j: int| 0 <= j < i ==> names[j] != name@,
        decreases headers@.len() - i,
    {
        assert(names[i as int] == headers@[i as int]@);
        if same_text(&headers[i], name) {
            return Some(i);
        }
        i += 1;
    }
    None
}

/// Reads the number under the heading `name`.
pub fn column_u64(headers: &Vec<String>, columns: &Vec<String>, name: &str) -> (result: Option<u64>)
    ensures
        result == column(contents(headers@), contents(columns@), name@),
{
    match position(headers, name) {
        Some(index) => {
            if index < columns.len() {
                assert(contents(columns@)[index as int] == columns@[index as int]@);
                parse_number(columns[index].as_str())
            } else {
                None
            }
        },
        None => None,
    }
}

/// Splits a text into the words of its lines, without blank lines and comments.
fn split_data_rows(text: &str) -> (result: Vec<Vec<String>>)
    ensures
        table(result@) == data_rows(lines(text@)),
{
    let rows: Vec<Vec<char>> = split_lines(text);
    let mut result: Vec<Vec<String>> = Vec::new();
    let mut i: usize = 0;
    assert(table(result@) =~= data_rows(lines(text@).take(0)));
    while i < rows.len()
        invariant
            i <= rows.len(),
            runs(rows@) == lines(text@),
            table(result@) == data_rows(lines(text@).take(i as int)),
        decreases rows.len() - i,
    {
        let row: Vec<String> = split_words(&rows[i]);
        let ghost seen = lines(text@).take(i + 1);
        let ghost earlier = table(result@);
        let ghost fields = contents(row@);
        assert(seen.drop_last() == lines(text@).take(i as int));
        assert(seen.last() == rows[i as int]@);
        if row.len() > 0 {
            assert(fields[0] == row[0]@);
            proof {
                law_words_are_solid(seen.last());
            }
            assert(words(seen.last())[0].len() > 0);
            if row[0].as_str().get_char(0) != '#' {
                result.push(row);
                assert(table(result@) =~= earlier.push(fields));
            }
        }
        i += 1;
    }
    assert(lines(text@).take(lines(text@).len() as int) == lines(text@));
    result
}

/// Reads the counters of a pool from the contents of its `io` file.
pub fn parse_pool_io(text: &str) -> (result: Option<PoolIoCounters>)
    ensures
        result == pool_counters(text@),
{
    let rows: Vec<Vec<String>> = split_data_rows(text);
    let ghost words_of = table(rows@);
    let mut heading: usize = 0;
    let mut found: bool = false;
    while heading < rows.len() && !found
        invariant
            words_of == table(rows@),
            heading <= rows@.len(),
            found ==> heading < rows@.len() && words_of[heading as int].contains("nread"@),
            heading_of(words_of, "nread"@, 0) == heading_of(words_of, "nread"@, heading as nat),
        decreases rows@.len() - heading, (if found { 0int } else { 1int }),
    {
        assert(words_of[heading as int] == contents(rows@[heading as int]@));
        if position(&rows[heading], "nread").is_some() {
            found = true;
        } else {
            heading += 1;
        }
    }
    if !found || heading + 1 >= rows.len() {
        return None;
    }
    assert(words_of[heading as int] == contents(rows@[heading as int]@));
    assert(words_of[heading + 1] == contents(rows@[heading + 1]@));
    let headers: &Vec<String> = &rows[heading];
    let columns: &Vec<String> = &rows[heading + 1];
    match (
        column_u64(headers, columns, "nread"),
        column_u64(headers, columns, "nwritten"),
        column_u64(headers, columns, "reads"),
        column_u64(headers, columns, "writes"),
    ) {
        (Some(read_bytes), Some(write_bytes), Some(read_ops), Some(write_ops)) => Some(
            PoolIoCounters { read_bytes, write_bytes, read_ops, write_ops },
        ),
        _ => None,
    }
}

/// What the kernel states is what is read: a further line with a name, a type
/// and a value adds that counter and changes no other.
pub proof fn law_counter_line_reads_back(
    text: Seq<char>,
    name: Seq<char>,
    kind: Seq<char>,
    value: u64,
)
    requires
        is_word(name),
        is_word(kind),
        name != "name"@,
    ensures
        kstat_rows(
            text.push('\n') + (name.push(' ') + kind).push(' ') + decimal(value as nat),
        ) == kstat_rows(text).insert(name, value),
{
    let digits = decimal(value as nat);
    let start = name.push(' ') + kind;
    let line = start.push(' ') + digits;
    law_decimals_are_words(value as nat);
    law_decimal_reads_back(value);
    law_a_word_is_one_word(name);
    law_words_follow_white_space(name, ' ', kind);
    law_words_follow_white_space(start, ' ', digits);
    assert(words(line) =~= seq![name, kind, digits]);
    assert(!line.contains('\n')) by {
        assert forall|i: int| 0 <= i < line.len() implies line[i] != '\n' by {
            if i < name.len() {
                assert(!is_white_space(name[i]));
            } else if name.len() < i < name.len() + 1 + kind.len() {
                assert(!is_white_space(kind[i - name.len() - 1]));
            } else if i > start.len() {
                assert(!is_white_space(digits[i - start.len() - 1]));
            }
        }
    }
    law_lines_follow_line_feeds(text, line);
    assert(text.push('\n') + start.push(' ') + digits =~= text.push('\n') + line);
    assert(lines(text).push(line).drop_last() =~= lines(text));
}

/// A column is found by its heading, wherever it stands: the number that was
/// written under the first heading of that name is the one that is read.
pub proof fn law_columns_read_back(
    headers: Seq<Seq<char>>,
    columns: Seq<Seq<char>>,
    name: Seq<char>,
    place: int,
    value: u64,
)
    requires
        0 <= place < headers.len(),
        place < columns.len(),
        headers[place] == name,
        forall|i: int| 0 <= i < place ==> headers[i] != name,
        columns[place] == decimal(value as nat),
    ensures
        column(headers, columns, name) == Some(value),
{
    lemma_place(headers, name, 0, place as nat);
    law_decimal_reads_back(value);
}

proof fn lemma_place(row: Seq<Seq<char>>, name: Seq<char>, from: nat, place: nat)
    requires
        from <= place < row.len(),
        row[place as int] == name,
        forall|i: int| from <= i < place ==> row[i] != name,
    ensures
        place_of(row, name, from) == place,
    decreases place - from,
{
    if from < place {
        lemma_place(row, name, from + 1, place);
    }
}

/// The line of headings is never taken for a counter.
pub proof fn law_headings_are_no_counter(text: Seq<char>)
    ensures
        !kstat_rows(text).contains_key("name"@),
{
    lemma_no_heading(lines(text));
}

proof fn lemma_no_heading(rows: Seq<Seq<char>>)
    ensures
        !entries(rows).contains_key("name"@),
    decreases rows.len(),
{
    if rows.len() > 0 {
        lemma_no_heading(rows.drop_last());
    }
}

/// Hits and misses make up all accesses: where there were any, and 64 bits can
/// count them, the two ratios add up to one.
pub proof fn law_arc_ratios_add_up(rows: Map<Seq<char>, u64>)
    requires
        0 < counter(rows, "hits"@) + counter(rows, "misses"@) <= u64::MAX,
    ensures
        arc_state(rows).hit_ratio.value() + arc_state(rows).miss_ratio.value() == 1real,
{
    let hits = counter(rows, "hits"@) as real;
    let misses = counter(rows, "misses"@) as real;
    let total = accesses(rows) as real;
    assert(hits / total + misses / total == 1real) by (nonlinear_arith)
        requires
            hits + misses == total,
            total > 0real,
    ;
}

/// Where no access was counted, both ratios are zero.
pub proof fn law_arc_ratios_are_zero_without_accesses(rows: Map<Seq<char>, u64>)
    requires
        counter(rows, "hits"@) == 0,
        counter(rows, "misses"@) == 0,
    ensures
        arc_state(rows).hit_ratio == Quantity::Zero,
        arc_state(rows).miss_ratio == Quantity::Zero,
{
}

/// Each ratio is its own counter's share of all accesses, and each size comes
/// from its own row; what a file does not state is zero.
pub proof fn law_arc_state_comes_from_its_rows(rows: Map<Seq<char>, u64>, hits: u64, misses: u64)
    requires
        hits == if rows.contains_key("hits"@) {
            rows["hits"@]
        } else {
            0
        },
        misses == if rows.contains_key("misses"@) {
            rows["misses"@]
        } else {
            0
        },
    ensures
        0 < hits + misses <= u64::MAX ==> {
            &&& arc_state(rows).hit_ratio.value() * (hits + misses) as real == hits as real
            &&& arc_state(rows).miss_ratio.value() * (hits + misses) as real == misses as real
        },
        hits + misses > u64::MAX ==> {
            &&& arc_state(rows).hit_ratio.value() * u64::MAX as real == hits as real
            &&& arc_state(rows).miss_ratio.value() * u64::MAX as real == misses as real
        },
        hits + misses == 0 ==> {
            &&& arc_state(rows).hit_ratio == Quantity::Zero
            &&& arc_state(rows).miss_ratio == Quantity::Zero
        },
        rows.contains_key("size"@) ==> arc_state(rows).size_bytes == rows["size"@],
        !rows.contains_key("size"@) ==> arc_state(rows).size_bytes == 0,
        rows.contains_key("c"@) ==> arc_state(rows).target_bytes == rows["c"@],
        !rows.contains_key("c"@) && rows.contains_key("target_size"@) ==> arc_state(
            rows,
        ).target_bytes == rows["target_size"@],
        !rows.contains_key("c"@) && !rows.contains_key("target_size"@) ==> arc_state(
            rows,
        ).target_bytes == 0,
{
    let total = if hits + misses <= u64::MAX {
        (hits + misses) as u64
    } else {
        u64::MAX
    };
    assert(accesses(rows) == total);
    law_ratios_are_quotients(hits, total);
    law_ratios_are_quotients(misses, total);
}

/// More hits at the same number of misses never make the hit ratio smaller, and
/// neither ratio exceeds one.
pub proof fn law_more_hits_raise_the_hit_ratio(
    before: Map<Seq<char>, u64>,
    after: Map<Seq<char>, u64>,
)
    requires
        before.contains_key("hits"@) && before.contains_key("misses"@),
        after.contains_key("hits"@) && after.contains_key("misses"@),
        before["hits"@] <= after["hits"@],
        before["misses"@] == after["misses"@],
        0 < before["hits"@] + before["misses"@],
        after["hits"@] + after["misses"@] <= u64::MAX,
    ensures
        arc_state(before).hit_ratio.value() <= arc_state(after).hit_ratio.value() <= 1real,
        arc_state(after).miss_ratio.value() <= arc_state(before).miss_ratio.value() <= 1real,
{
    let a = before["hits"@];
    let b = after["hits"@];
    let m = before["misses"@];
    law_arc_state_comes_from_its_rows(before, a, m);
    law_arc_state_comes_from_its_rows(after, b, m);
    let ah = arc_state(before).hit_ratio.value();
    let am = arc_state(before).miss_ratio.value();
    let bh = arc_state(after).hit_ratio.value();
    let bm = arc_state(after).miss_ratio.value();
    let s = (a + m) as real;
    let t = (b + m) as real;
    let (x, y, z) = (a as real, b as real, m as real);
    assert(ah <= bh && bh <= 1real && bm <= am && am <= 1real) by (nonlinear_arith)
        requires
            ah * s == x,
            am * s == z,
            bh * t == y,
            bm * t == z,
            s == x + z,
            t == y + z,
            0real <= x <= y,
            0real <= z,
            s > 0real,
    ;
}

/// What a further line does to the counters: one with three words, of which the
/// first is not the heading and the last is a number, sets that counter; any
/// other line does nothing.
pub proof fn law_a_line_sets_at_most_one_counter(text: Seq<char>, line: Seq<char>)
    requires
        !line.contains('\n'),
    ensures
        words(line).len() == 3 && words(line)[0] != "name"@ && number(words(line)[2]) is Some
            ==> kstat_rows(text.push('\n') + line) == kstat_rows(text).insert(
            words(line)[0],
            number(words(line)[2])->0,
        ),
        !(words(line).len() == 3 && words(line)[0] != "name"@ && number(words(line)[2]) is Some)
            ==> kstat_rows(text.push('\n') + line) == kstat_rows(text),
{
    law_lines_follow_line_feeds(text, line);
    assert(lines(text).push(line).drop_last() =~= lines(text));
}

/// A file of a single line has that line's counter, if it states one, and an
/// empty file none.
pub proof fn law_a_single_line_states_its_counter(line: Seq<char>)
    requires
        !line.contains('\n'),
    ensures
        words(line).len() == 3 && words(line)[0] != "name"@ && number(words(line)[2]) is Some
            ==> kstat_rows(line) == Map::<Seq<char>, u64>::empty().insert(
            words(line)[0],
            number(words(line)[2])->0,
        ),
        !(words(line).len() == 3 && words(line)[0] != "name"@ && number(words(line)[2]) is Some)
            ==> kstat_rows(line) == Map::<Seq<char>, u64>::empty(),
        kstat_rows(Seq::<char>::empty()) == Map::<Seq<char>, u64>::empty(),
{
    law_text_without_line_feed_is_one_line(line);
    let none = Seq::<Seq<char>>::empty();
    assert(entries(none) == Map::<Seq<char>, u64>::empty());
    assert(seq![line].drop_last() =~= none);
    let nothing = Seq::<char>::empty();
    law_text_without_line_feed_is_one_line(nothing);
    assert(seq![nothing].drop_last() =~= none);
    assert(words(nothing).len() == 0);
}

/// A further line is a row of the table unless it is blank or its first word
/// starts with a hash sign.
pub proof fn law_blank_lines_and_comments_are_no_rows(rows: Seq<Seq<char>>, line: Seq<char>)
    ensures
        data_rows(Seq::<Seq<char>>::empty()) == Seq::<Seq<Seq<char>>>::empty(),
        words(line).len() == 0 || words(line)[0][0] == '#' ==> data_rows(rows.push(line))
            == data_rows(rows),
        words(line).len() > 0 && words(line)[0][0] != '#' ==> data_rows(rows.push(line))
            == data_rows(rows).push(words(line)),
{
    assert(rows.push(line).drop_last() =~= rows);
}

/// The counters of a pool are those in the row below the first one that has a
/// column `nread`, each under its own heading, wherever it stands in the row.
pub proof fn law_pool_counters_stand_under_their_headings(
    text: Seq<char>,
    heading: int,
    places: (int, int, int, int),
    values: (u64, u64, u64, u64),
)
    requires
        ({
            let rows = data_rows(lines(text));
            let headers = rows[heading];
            let columns = rows[heading + 1];
            let (nread, nwritten, reads, writes) = places;
            &&& 0 <= heading < rows.len() - 1
            &&& forall|i: int| 0 <= i < heading ==> !(#[trigger] rows[i]).contains("nread"@)
            &&& stands_first(headers, columns, "nread"@, nread)
            &&& stands_first(headers, columns, "nwritten"@, nwritten)
            &&& stands_first(headers, columns, "reads"@, reads)
            &&& stands_first(headers, columns, "writes"@, writes)
            &&& number(columns[nread]) == Some(values.0)
            &&& number(columns[nwritten]) == Some(values.1)
            &&& number(columns[reads]) == Some(values.2)
            &&& number(columns[writes]) == Some(values.3)
        }),
    ensures
        pool_counters(text) is Some,
        pool_counters(text)->0.read_bytes == values.0,
        pool_counters(text)->0.write_bytes == values.1,
        pool_counters(text)->0.read_ops == values.2,
        pool_counters(text)->0.write_ops == values.3,
{
    let rows = data_rows(lines(text));
    let headers = rows[heading];
    let (nread, nwritten, reads, writes) = places;
    assert(rows[heading][nread] == "nread"@);
    assert(rows[heading].contains("nread"@));
    lemma_heading(rows, "nread"@, 0, heading as nat);
    lemma_place(headers, "nread"@, 0, nread as nat);
    lemma_place(headers, "nwritten"@, 0, nwritten as nat);
    lemma_place(headers, "reads"@, 0, reads as nat);
    lemma_place(headers, "writes"@, 0, writes as nat);
}

/// `place` is the first place in `headers` at which `name` stands, and there is
/// a column below it.
pub open spec fn stands_first(
    headers: Seq<Seq<char>>,
    columns: Seq<Seq<char>>,
    name: Seq<char>,
    place: int,
) -> bool {
    &&& 0 <= place < headers.len()
    &&& place < columns.len()
    &&& headers[place] == name
    &&& forall|i: int| 0 <= i < place ==> headers[i] != name
}

proof fn lemma_heading(rows: Seq<Seq<Seq<char>>>, name: Seq<char>, from: nat, place: nat)
    requires
        from <= place < rows.len(),
        rows[place as int].contains(name),
        forall|i: int| from <= i < place ==> !(#[trigger] rows[i]).contains(name),
    ensures
        heading_of(rows, name, from) == place,
    decreases place - from,
{
    if from < place {
        assert(!rows[from as int].contains(name));
        lemma_heading(rows, name, from + 1, place);
    }
}

/// Where a pool's counters are found, there is such a row: a first one with a
/// column `nread`, a row below it, and in that row a number under each of the
/// four headings. Where any of this is missing, nothing is found.
pub proof fn law_pool_counters_need_every_column(text: Seq<char>)
    requires
        pool_counters(text) is Some,
    ensures
        exists|heading: int| #[trigger]
            is_heading(data_rows(lines(text)), heading) && {
                let headers = data_rows(lines(text))[heading];
                let columns = data_rows(lines(text))[heading + 1];
                let found = pool_counters(text)->0;
                &&& states(headers, columns, "nread"@, found.read_bytes)
                &&& states(headers, columns, "nwritten"@, found.write_bytes)
                &&& states(headers, columns, "reads"@, found.read_ops)
                &&& states(headers, columns, "writes"@, found.write_ops)
            },
{
    let rows = data_rows(lines(text));
    let heading = heading_of(rows, "nread"@, 0) as int;
    lemma_heading_is_first(rows, "nread"@, 0);
    assert(is_heading(rows, heading));
    let headers = rows[heading];
    let columns = rows[heading + 1];
    lemma_column_is_stated(headers, columns, "nread"@);
    lemma_column_is_stated(headers, columns, "nwritten"@);
    lemma_column_is_stated(headers, columns, "reads"@);
    lemma_column_is_stated(headers, columns, "writes"@);
}

/// Row number `heading` is the first that has a column `nread`, and not the
/// last.
pub open spec fn is_heading(rows: Seq<Seq<Seq<char>>>, heading: int) -> bool {
    &&& 0 <= heading < rows.len() - 1
    &&& rows[heading].contains("nread"@)
    &&& forall|i: int| 0 <= i < heading ==> !(#[trigger] rows[i]).contains("nread"@)
}

/// `value` stands in `columns` under the first of `headers` that is `name`.
pub open spec fn states(
    headers: Seq<Seq<char>>,
    columns: Seq<Seq<char>>,
    name: Seq<char>,
    value: u64,
) -> bool {
    exists|place: int| #[trigger]
        stands_first(headers, columns, name, place) && number(columns[place]) == Some(value)
}

proof fn lemma_heading_is_first(rows: Seq<Seq<Seq<char>>>, name: Seq<char>, from: nat)
    requires
        from <= rows.len(),
    ensures
        from <= heading_of(rows, name, from) <= rows.len(),
        heading_of(rows, name, from) < rows.len() ==> rows[heading_of(
            rows,
            name,
            from,
        ) as int].contains(name),
        forall|i: int|
            from <= i < heading_of(rows, name, from) ==> !(#[trigger] rows[i]).contains(name),
    decreases rows.len() - from,
{
    if from < rows.len() && !rows[from as int].contains(name) {
        lemma_heading_is_first(rows, name, from + 1);
    }
}

proof fn lemma_place_is_first(row: Seq<Seq<char>>, name: Seq<char>, from: nat)
    requires
        from <= row.len(),
    ensures
        from <= place_of(row, name, from) <= row.len(),
        place_of(row, name, from) < row.len() ==> row[place_of(row, name, from) as int] == name,
        forall|i: int| from <= i < place_of(row, name, from) ==> row[i] != name,
    decreases row.len() - from,
{
    if from < row.len() && row[from as int] != name {
        lemma_place_is_first(row, name, from + 1);
    }
}

proof fn lemma_column_is_stated(
    headers: Seq<Seq<char>>,
    columns: Seq<Seq<char>>,
    name: Seq<char>,
)
    requires
        column(headers, columns, name) is Some,
    ensures
        states(headers, columns, name, column(headers, columns, name)->0),
{
    lemma_place_is_first(headers, name, 0);
    assert(stands_first(headers, columns, name, place_of(headers, name, 0) as int));
}

/// A column is read under the first heading of its name; without one, or without
/// a word below it, there is nothing to read.
pub proof fn law_columns_are_read_under_their_first_heading(
    headers: Seq<Seq<char>>,
    columns: Seq<Seq<char>>,
    name: Seq<char>,
    place: int,
)
    ensures
        stands_first(headers, columns, name, place) ==> column(headers, columns, name) == number(
            columns[place],
        ),
        !headers.contains(name) ==> column(headers, columns, name) is None,
        0 <= place < headers.len() && headers[place] == name && columns.len() <= place && (forall|
            i: int,
        |
            0 <= i < place ==> headers[i] != name) ==> column(headers, columns, name) is None,
{
    if 0 <= place < headers.len() && headers[place] == name && (forall|i: int|
        0 <= i < place ==> headers[i] != name) {
        lemma_place(headers, name, 0, place as nat);
    }
    if !headers.contains(name) {
        lemma_place_is_first(headers, name, 0);
    }
}

/// A table of strings is seen row by row and word by word.
pub proof fn law_tables_are_seen_word_by_word(rows: Seq<Vec<String>>, i: int, j: int)
    requires
        0 <= i < rows.len(),
    ensures
        table(rows).len() == rows.len(),
        table(rows)[i].len() == rows[i]@.len(),
        0 <= j < rows[i]@.len() ==> table(rows)[i][j] == rows[i]@[j]@,
{
}

/// Nothing is known of the cache where its statistics cannot be read.
pub proof fn law_no_cache_is_all_zero()
    ensures
        no_arc_state().size_bytes == 0,
        no_arc_state().target_bytes == 0,
        no_arc_state().hit_ratio == Quantity::Zero,
        no_arc_state().miss_ratio == Quantity::Zero,
{
}

} // verus!
