//! Text as the kernel statistics files use it: lines, words and numbers.

use vstd::prelude::*;

verus! {

/// `String::push` appends the character to the end of the string.
pub assume_specification[ String::push ](s: &mut String, c: char)
    ensures
        final(s)@ == old(s)@.push(c),
;

/// The characters that Unicode gives the property `White_Space`.
pub open spec fn is_white_space(c: char) -> bool {
    let code = c as u32;
    ||| 0x09 <= code <= 0x0d
    ||| code == 0x20
    ||| code == 0x85
    ||| code == 0xa0
    ||| code == 0x1680
    ||| 0x2000 <= code <= 0x200a
    ||| code == 0x2028
    ||| code == 0x2029
    ||| code == 0x202f
    ||| code == 0x205f
    ||| code == 0x3000
}

/// The pieces of `text` between line feeds. There is always one more piece
/// than there are line feeds.
pub open spec fn lines(text: Seq<char>) -> Seq<Seq<char>>
    decreases text.len(),
{
    if text.len() == 0 {
        seq![Seq::<char>::empty()]
    } else {
        let before = lines(text.drop_last());
        if text.last() == '\n' {
            before.push(Seq::<char>::empty())
        } else {
            before.drop_last().push(before.last().push(text.last()))
        }
    }
}

/// The maximal runs of characters of `line` that are not white space.
pub open spec fn words(line: Seq<char>) -> Seq<Seq<char>>
    decreases line.len(),
{
    if line.len() == 0 {
        Seq::<Seq<char>>::empty()
    } else {
        let rest = line.drop_last();
        let before = words(rest);
        if is_white_space(line.last()) {
            before
        } else if rest.len() == 0 || is_white_space(rest.last()) {
            before.push(seq![line.last()])
        } else {
            before.drop_last().push(before.last().push(line.last()))
        }
    }
}

/// The contents of a list of strings.
pub open spec fn contents(strings: Seq<String>) -> Seq<Seq<char>> {
    strings.map_values(|s: String| s@)
}

/// The contents of a list of character vectors.
pub open spec fn runs(vectors: Seq<Vec<char>>) -> Seq<Seq<char>> {
    vectors.map_values(|v: Vec<char>| v@)
}

pub open spec fn is_digit(c: char) -> bool {
    '0' <= c <= '9'
}

pub open spec fn digit_value(c: char) -> nat {
    (c as u32 - '0' as u32) as nat
}

pub open spec fn all_digits(s: Seq<char>) -> bool {
    forall|i: int| 0 <= i < s.len() ==> is_digit(#[trigger] s[i])
}

/// The number that a run of decimal digits denotes.
pub open spec fn digits_value(digits: Seq<char>) -> nat
    decreases digits.len(),
{
    if digits.len() == 0 {
        0
    } else {
        digits_value(digits.drop_last()) * 10 + digit_value(digits.last())
    }
}

/// A word without the plus sign that a number may start with.
pub open spec fn unsigned_part(word: Seq<char>) -> Seq<char> {
    if word.len() > 0 && word[0] == '+' {
        word.skip(1)
    } else {
        word
    }
}

/// The 64-bit number that a word denotes: an optional plus sign and at least
/// one decimal digit, with a value that fits.
pub open spec fn number(word: Seq<char>) -> Option<u64> {
    let digits = unsigned_part(word);
    if digits.len() > 0 && all_digits(digits) && digits_value(digits) <= u64::MAX {
        Some(digits_value(digits) as u64)
    } else {
        None
    }
}

/// The decimal digits of `n`, without leading zeros; a single zero for zero.
pub open spec fn decimal(n: nat) -> Seq<char>
    decreases n,
{
    if n < 10 {
        seq![digit_char(n)]
    } else {
        decimal(n / 10).push(digit_char(n % 10))
    }
}

pub open spec fn digit_char(d: nat) -> char {
    ('0' as u32 + d) as char
}

/// Tells whether `c` is white space.
pub fn white_space(c: char) -> (result: bool)
    ensures
        result == is_white_space(c),
        c == ' ' || c == '\t' || c == '\n' || c == '\r' ==> result,
        '!' <= c <= '~' ==> !result,
{
    let code: u32 = c as u32;
    (0x09 <= code && code <= 0x0d) || code == 0x20 || code == 0x85 || code == 0xa0 || code == 0x1680
        || (0x2000 <= code && code <= 0x200a) || code == 0x2028 || code == 0x2029 || code == 0x202f
        || code == 0x205f || code == 0x3000
}

/// Splits a text at its line feeds.
pub fn split_lines(text: &str) -> (result: Vec<Vec<char>>)
    ensures
        runs(result@) == lines(text@),
{
    let mut done: Vec<Vec<char>> = Vec::new();
    let mut current: Vec<char> = Vec::new();
    assert(text@.take(0) == Seq::<char>::empty());
    for c in it: text.chars()
        invariant
            it.seq() == text@,
            runs(done@).push(current@) == lines(text@.take(it.index() as int)),
    {
        let ghost i = it.index() as int;
        let ghost earlier = runs(done@);
        assert(text@.take(i + 1).drop_last() == text@.take(i));
        assert(text@.take(i + 1).last() == c);
        if c == '\n' {
            let ghost finished = current@;
            done.push(current);
            current = Vec::new();
            assert(runs(done@) =~= earlier.push(finished));
            assert(runs(done@).push(current@) =~= lines(text@.take(i + 1)));
        } else {
            let ghost open = current@;
            current.push(c);
            assert(earlier.push(open).drop_last() =~= earlier);
            assert(runs(done@).push(current@) =~= lines(text@.take(i + 1)));
        }
    }
    assert(text@.take(text@.len() as int) == text@);
    let ghost earlier = runs(done@);
    let ghost open = current@;
    done.push(current);
    assert(runs(done@) =~= earlier.push(open));
    done
}

/// Splits a line into its words.
pub fn split_words(line: &Vec<char>) -> (result: Vec<String>)
    ensures
        contents(result@) == words(line@),
{
    let mut done: Vec<String> = Vec::new();
    let mut current: String = String::new();
    let mut open: bool = false;
    let mut i: usize = 0;
    assert(contents(done@) =~= words(line@.take(0)));
    while i < line.len()
        invariant
            i <= line.len(),
            open == (i > 0 && !is_white_space(line@[i - 1])),
            open ==> contents(done@).push(current@) == words(line@.take(i as int)),
            !open ==> contents(done@) == words(line@.take(i as int)) && current@.len() == 0,
        decreases line.len() - i,
    {
        let c: char = line[i];
        let ghost earlier = contents(done@);
        let ghost run = current@;
        let ghost rest = line@.take(i as int);
        assert(line@.take(i + 1).drop_last() == rest);
        assert(line@.take(i + 1).last() == c);
        if white_space(c) {
            if open {
                done.push(current);
                current = String::new();
                open = false;
                assert(contents(done@) =~= earlier.push(run));
            }
        } else {
            current.push(c);
            if open {
                assert(earlier.push(run).drop_last() =~= earlier);
            } else {
                assert(current@ =~= seq![c]);
            }
            open = true;
        }
        i += 1;
    }
    assert(line@.take(line@.len() as int) == line@);
    if open {
        let ghost earlier = contents(done@);
        let ghost run = current@;
        done.push(current);
        assert(contents(done@) =~= earlier.push(run));
    }
    done
}

/// The order of texts is an order: every text stands in it, and of any two one
/// comes first.
pub proof fn law_texts_are_totally_ordered(left: Seq<char>, right: Seq<char>)
    ensures
        ordered(left, left),
        ordered(left, right) || ordered(right, left),
        ordered(left, right) && ordered(right, left) ==> left == right,
    decreases left.len(),
{
    if left.len() > 0 {
        if right.len() > 0 {
            law_texts_are_totally_ordered(left.drop_first(), right.drop_first());
            if left[0] == right[0] && left.drop_first() == right.drop_first() {
                assert(left =~= seq![left[0]] + left.drop_first());
                assert(right =~= seq![right[0]] + right.drop_first());
            }
        } else {
            law_texts_are_totally_ordered(left.drop_first(), right);
        }
    } else if right.len() == 0 {
        assert(left =~= right);
    }
}

/// The order of texts is transitive.
pub proof fn law_text_order_is_transitive(first: Seq<char>, second: Seq<char>, third: Seq<char>)
    requires
        ordered(first, second),
        ordered(second, third),
    ensures
        ordered(first, third),
    decreases first.len(),
{
    if first.len() > 0 && third.len() > 0 && first[0] == second[0] && second[0] == third[0] {
        law_text_order_is_transitive(first.drop_first(), second.drop_first(), third.drop_first());
    }
}

/// A longer run of digits denotes a number that is no smaller.
proof fn lemma_digits_value_grows(digits: Seq<char>, n: int)
    requires
        0 <= n <= digits.len(),
    ensures
        digits_value(digits.take(n)) <= digits_value(digits),
    decreases digits.len(),
{
    if n == digits.len() {
        assert(digits.take(n) == digits);
    } else {
        lemma_digits_value_grows(digits.drop_last(), n);
        assert(digits.drop_last().take(n) == digits.take(n));
    }
}

/// Reads a word as a 64-bit number.
pub fn parse_number(word: &str) -> (result: Option<u64>)
    ensures
        result == number(word@),
{
    let ghost digits = unsigned_part(word@);
    let mut value: u64 = 0;
    let mut seen: bool = false;
    let mut first: bool = true;
    for c in it: word.chars()
        invariant
            it.seq() == word@,
            digits == unsigned_part(word@),
            first == (it.index() == 0),
            ({
                let start = word@.len() - digits.len();
                let read = it.index() - start;
                &&& 0 <= start <= 1
                &&& digits == word@.skip(start)
                &&& start == 1 <==> word@.len() > 0 && word@[0] == '+'
                &&& seen == (read > 0)
                &&& read <= 0 ==> value == 0
                &&& read > 0 ==> all_digits(digits.take(read)) && value == digits_value(
                    digits.take(read),
                )
            }),
    {
        let ghost i = it.index() as int;
        let ghost start = word@.len() - digits.len();
        let ghost read = i - start;
        if first && c == '+' {
            first = false;
        } else {
            first = false;
            assert(digits[read] == c);
            if !(c >= '0' && c <= '9') {
                assert(!is_digit(digits[read]));
                return None;
            }
            let digit: u64 = (c as u32 - '0' as u32) as u64;
            assert(digits.take(read + 1).drop_last() == digits.take(read));
            assert(digits.take(read + 1).last() == c);
            assert(value == digits_value(digits.take(read))) by {
                if read == 0 {
                    assert(digits.take(read) == Seq::<char>::empty());
                }
            }
            assert(digits_value(digits.take(read + 1)) == value * 10 + digit);
            proof {
                lemma_digits_value_grows(digits, read + 1);
            }
            if value > (u64::MAX - digit) / 10 {
                return None;
            }
            value = value * 10 + digit;
            seen = true;
        }
    }
    if seen {
        assert(digits.take(digits.len() as int) == digits);
        Some(value)
    } else {
        None
    }
}

/// Tells whether two texts hold the same characters.
pub fn same_text(left: &String, right: &str) -> (result: bool)
    ensures
        result == (left@ == right@),
{
    left.eq(&right.to_string())
}

/// Whether `left` comes before `right`, or is the same, in the order of their
/// characters' code points. The start of a text comes before the text.
pub open spec fn ordered(left: Seq<char>, right: Seq<char>) -> bool
    decreases left.len(),
{
    if left.len() == 0 {
        true
    } else if right.len() == 0 {
        false
    } else if left[0] != right[0] {
        left[0] < right[0]
    } else {
        ordered(left.drop_first(), right.drop_first())
    }
}

/// Computes `ordered`.
pub fn in_order(left: &str, right: &str) -> (result: bool)
    ensures
        result == ordered(left@, right@),
{
    let mut left_chars = left.chars();
    let mut right_chars = right.chars();
    let ghost mut left_rest = left@;
    let ghost mut right_rest = right@;
    loop
        invariant
            vstd::std_specs::iter::IteratorSpec::remaining(&left_chars) == left_rest,
            vstd::std_specs::iter::IteratorSpec::remaining(&right_chars) == right_rest,
            ordered(left_rest, right_rest) == ordered(left@, right@),
        decreases left_rest.len(),
    {
        match left_chars.next() {
            None => {
                return true;
            },
            Some(l) => match right_chars.next() {
                None => {
                    return false;
                },
                Some(r) => {
                    if l != r {
                        return l < r;
                    }
                    proof {
                        left_rest = left_rest.drop_first();
                        right_rest = right_rest.drop_first();
                    }
                },
            },
        }
    }
}

/// Writes a number in decimal.
pub fn decimal_string(n: u128) -> (result: String)
    ensures
        result@ == decimal(n as nat),
    decreases n,
{
    let mut result: String = if n < 10 {
        String::new()
    } else {
        decimal_string(n / 10)
    };
    let digit: u8 = (n % 10) as u8;
    result.push((48u8 + digit) as char);
    assert(result@ =~= decimal(n as nat));
    result
}

/// The text that a list of pieces makes with `separator` between neighbours.
pub open spec fn joined(pieces: Seq<Seq<char>>, separator: Seq<char>) -> Seq<char>
    decreases pieces.len(),
{
    if pieces.len() == 0 {
        Seq::<char>::empty()
    } else if pieces.len() == 1 {
        pieces[0]
    } else {
        joined(pieces.drop_last(), separator) + separator + pieces.last()
    }
}

/// Lines lose nothing: no line holds a line feed, and the lines joined by line
/// feeds are the text.
pub proof fn law_lines_rejoin(text: Seq<char>)
    ensures
        lines(text).len() >= 1,
        joined(lines(text), seq!['\n']) == text,
        forall|i: int| 0 <= i < lines(text).len() ==> !(#[trigger] lines(text)[i]).contains('\n'),
    decreases text.len(),
{
    if text.len() > 0 {
        let rest = text.drop_last();
        let before = lines(rest);
        law_lines_rejoin(rest);
        let newline = seq!['\n'];
        assert(text == rest.push(text.last()));
        if text.last() == '\n' {
            assert(lines(text).drop_last() == before);
            assert(joined(lines(text), newline) == joined(before, newline) + newline + Seq::<
                char,
            >::empty());
        } else {
            let grown = before.last().push(text.last());
            assert(lines(text).drop_last() == before.drop_last());
            assert forall|i: int| 0 <= i < lines(text).len() implies !(#[trigger] lines(
                text,
            )[i]).contains('\n') by {
                if i == lines(text).len() - 1 {
                    assert(!before[i].contains('\n'));
                    assert forall|j: int| 0 <= j < grown.len() implies grown[j] != '\n' by {
                        if j < before.last().len() {
                            assert(before.last()[j] != '\n');
                        }
                    }
                } else {
                    assert(!before[i].contains('\n'));
                }
            }
        }
    }
}

/// Words are not empty and hold no white space.
pub proof fn law_words_are_solid(line: Seq<char>)
    ensures
        forall|i: int|
            0 <= i < words(line).len() ==> {
                &&& (#[trigger] words(line)[i]).len() > 0
                &&& forall|j: int|
                    0 <= j < words(line)[i].len() ==> !is_white_space(#[trigger] words(line)[i][j])
            },
    decreases line.len(),
{
    if line.len() > 0 {
        law_words_are_solid(line.drop_last());
        let before = words(line.drop_last());
        assert forall|i: int| 0 <= i < words(line).len() implies {
            &&& (#[trigger] words(line)[i]).len() > 0
            &&& forall|j: int|
                0 <= j < words(line)[i].len() ==> !is_white_space(#[trigger] words(line)[i][j])
        } by {
            if i < before.len() {
                assert(before[i].len() > 0);
            }
        }
    }
}

/// White space at the end of a line, such as the carriage return of a
/// two-character line ending, changes no word.
pub proof fn law_trailing_white_space_is_ignored(line: Seq<char>, c: char)
    requires
        is_white_space(c),
    ensures
        words(line.push(c)) == words(line),
{
    assert(line.push(c).drop_last() == line);
}

/// Words lose nothing but white space: one after the other they hold all other
/// characters of the line, in their order.
pub proof fn law_words_keep_all_else(line: Seq<char>)
    ensures
        joined(words(line), Seq::<char>::empty()) == line.filter(|c: char| !is_white_space(c)),
    decreases line.len(),
{
    reveal(Seq::filter);
    let solid = |c: char| !is_white_space(c);
    let nothing = Seq::<char>::empty();
    if line.len() > 0 {
        let rest = line.drop_last();
        let before = words(rest);
        law_words_keep_all_else(rest);
        if solid(line.last()) {
            if rest.len() == 0 || is_white_space(rest.last()) {
                lemma_joined_push(before, seq![line.last()]);
                assert(joined(words(line), nothing) =~= rest.filter(solid).push(line.last()));
            } else {
                lemma_open_word(rest);
                let grown = before.last().push(line.last());
                lemma_joined_push(before.drop_last(), before.last());
                lemma_joined_push(before.drop_last(), grown);
                assert(before.drop_last().push(before.last()) =~= before);
                assert(joined(words(line), nothing) =~= rest.filter(solid).push(line.last()));
            }
        }
    }
}

proof fn lemma_joined_push(before: Seq<Seq<char>>, piece: Seq<char>)
    ensures
        joined(before.push(piece), Seq::<char>::empty()) == joined(before, Seq::<char>::empty())
            + piece,
{
    assert(before.push(piece).drop_last() =~= before);
    if before.len() == 0 {
        assert(joined(before.push(piece), Seq::<char>::empty()) =~= joined(
            before,
            Seq::<char>::empty(),
        ) + piece);
    } else {
        assert(joined(before, Seq::<char>::empty()) + Seq::<char>::empty() + piece =~= joined(
            before,
            Seq::<char>::empty(),
        ) + piece);
    }
}

/// A line that ends in a word has one.
proof fn lemma_open_word(line: Seq<char>)
    requires
        line.len() > 0,
        !is_white_space(line.last()),
    ensures
        words(line).len() > 0,
    decreases line.len(),
{
}

/// A word: not empty, and without white space.
pub open spec fn is_word(word: Seq<char>) -> bool {
    word.len() > 0 && forall|i: int| 0 <= i < word.len() ==> !is_white_space(#[trigger] word[i])
}

/// A word that follows a line and a white space is one more word.
pub proof fn law_words_follow_white_space(line: Seq<char>, space: char, word: Seq<char>)
    requires
        is_white_space(space),
        is_word(word),
    ensures
        words(line.push(space) + word) == words(line).push(word),
    decreases word.len(),
{
    let whole = line.push(space) + word;
    let rest = word.drop_last();
    assert(whole.drop_last() =~= line.push(space) + rest);
    assert(whole.last() == word.last());
    if rest.len() == 0 {
        assert(whole.drop_last() =~= line.push(space));
        law_trailing_white_space_is_ignored(line, space);
        assert(seq![word.last()] =~= word);
    } else {
        assert(is_word(rest)) by {
            assert forall|i: int| 0 <= i < rest.len() implies !is_white_space(#[trigger] rest[i]) by {
                assert(!is_white_space(word[i]));
            }
        }
        law_words_follow_white_space(line, space, rest);
        assert(whole.drop_last().last() == rest.last());
        assert(!is_white_space(rest.last()));
        assert(words(line).push(rest).drop_last() =~= words(line));
        assert(rest.push(word.last()) =~= word);
    }
}

/// A word by itself is its only word.
pub proof fn law_a_word_is_one_word(word: Seq<char>)
    requires
        is_word(word),
    ensures
        words(word) == seq![word],
{
    lemma_leading_white_space(word);
    law_words_follow_white_space(Seq::<char>::empty(), ' ', word);
    assert(words(Seq::<char>::empty()).push(word) =~= seq![word]);
}

proof fn lemma_leading_white_space(line: Seq<char>)
    ensures
        words(Seq::<char>::empty().push(' ') + line) == words(line),
    decreases line.len(),
{
    let whole = Seq::<char>::empty().push(' ') + line;
    if line.len() == 0 {
        assert(whole.drop_last() =~= Seq::<char>::empty());
        assert(whole.last() == ' ' && is_white_space(' '));
        assert(line =~= Seq::<char>::empty());
    } else {
        let rest = line.drop_last();
        lemma_leading_white_space(rest);
        assert(whole.drop_last() =~= Seq::<char>::empty().push(' ') + rest);
        if rest.len() > 0 {
            assert(whole.drop_last().last() == rest.last());
        }
    }
}

/// A line that follows a text and a line feed is one more line.
pub proof fn law_lines_follow_line_feeds(text: Seq<char>, line: Seq<char>)
    requires
        !line.contains('\n'),
    ensures
        lines(text.push('\n') + line) == lines(text).push(line),
    decreases line.len(),
{
    let whole = text.push('\n') + line;
    if line.len() == 0 {
        assert(whole =~= text.push('\n'));
        assert(text.push('\n').drop_last() =~= text);
        assert(line =~= Seq::<char>::empty());
    } else {
        let rest = line.drop_last();
        assert(line.last() == line[line.len() - 1]);
        assert(!rest.contains('\n')) by {
            if rest.contains('\n') {
                let i = choose|i: int| 0 <= i < rest.len() && rest[i] == '\n';
                assert(line[i] == '\n');
            }
        }
        law_lines_follow_line_feeds(text, rest);
        assert(whole.drop_last() =~= text.push('\n') + rest);
        assert(whole.last() == line.last());
        assert(lines(text).push(rest).drop_last() =~= lines(text));
        assert(rest.push(line.last()) =~= line);
    }
}

/// A number written in decimal is a word.
pub proof fn law_decimals_are_words(n: nat)
    ensures
        is_word(decimal(n)),
{
    lemma_decimal_digits(n);
    assert forall|i: int| 0 <= i < decimal(n).len() implies !is_white_space(
        #[trigger] decimal(n)[i],
    ) by {
        assert(is_digit(decimal(n)[i]));
    }
}

/// A number written in decimal reads back as the same number.
pub proof fn law_decimal_reads_back(n: u64)
    ensures
        number(decimal(n as nat)) == Some(n),
{
    lemma_decimal_digits(n as nat);
}

proof fn lemma_decimal_digits(n: nat)
    ensures
        decimal(n).len() > 0,
        all_digits(decimal(n)),
        digits_value(decimal(n)) == n,
        decimal(n)[0] != '+',
    decreases n,
{
    reveal_with_fuel(digits_value, 2);
    if n >= 10 {
        lemma_decimal_digits(n / 10);
        assert(decimal(n).drop_last() == decimal(n / 10));
    } else {
        assert(decimal(n).drop_last() == Seq::<char>::empty());
    }
}

/// A text without a line feed is a single line.
pub proof fn law_text_without_line_feed_is_one_line(text: Seq<char>)
    requires
        !text.contains('\n'),
    ensures
        lines(text) == seq![text],
    decreases text.len(),
{
    if text.len() == 0 {
        assert(text =~= Seq::<char>::empty());
    } else {
        let rest = text.drop_last();
        assert(text.last() == text[text.len() - 1]);
        assert(!rest.contains('\n')) by {
            if rest.contains('\n') {
                let i = choose|i: int| 0 <= i < rest.len() && rest[i] == '\n';
                assert(text[i] == '\n');
            }
        }
        law_text_without_line_feed_is_one_line(rest);
        assert(rest.push(text.last()) =~= text);
        assert(lines(text) =~= seq![text]);
    }
}

/// Pieces without line feeds that are joined by line feeds come apart again as
/// they were.
pub proof fn law_joined_lines_come_apart(pieces: Seq<Seq<char>>)
    requires
        pieces.len() > 0,
        forall|i: int| 0 <= i < pieces.len() ==> !(#[trigger] pieces[i]).contains('\n'),
    ensures
        lines(joined(pieces, seq!['\n'])) == pieces,
    decreases pieces.len(),
{
    if pieces.len() == 1 {
        assert(!pieces[0].contains('\n'));
        law_text_without_line_feed_is_one_line(pieces[0]);
        assert(pieces =~= seq![pieces[0]]);
    } else {
        let rest = pieces.drop_last();
        assert forall|i: int| 0 <= i < rest.len() implies !(#[trigger] rest[i]).contains('\n') by {
            assert(!pieces[i].contains('\n'));
        }
        law_joined_lines_come_apart(rest);
        let before = joined(rest, seq!['\n']);
        assert(!pieces[pieces.len() - 1].contains('\n'));
        law_lines_follow_line_feeds(before, pieces.last());
        assert(joined(pieces, seq!['\n']) =~= before.push('\n') + pieces.last());
        assert(rest.push(pieces.last()) =~= pieces);
    }
}

/// The first difference decides the order of two texts; a text without one comes
/// first if it is the shorter.
pub proof fn law_first_difference_decides(
    common: Seq<char>,
    left: Seq<char>,
    right: Seq<char>,
)
    ensures
        ordered(common, common + right),
        right.len() > 0 ==> !ordered(common + right, common),
        left.len() > 0 && right.len() > 0 && left[0] < right[0] ==> ordered(
            common + left,
            common + right,
        ) && !ordered(common + right, common + left),
    decreases common.len(),
{
    if common.len() == 0 {
        assert(common + left =~= left);
        assert(common + right =~= right);
    } else {
        let rest = common.drop_first();
        law_first_difference_decides(rest, left, right);
        assert((common + left).drop_first() =~= rest + left);
        assert((common + right).drop_first() =~= rest + right);
    }
}

/// One more digit makes a number ten times as large, and adds the digit, as long
/// as 64 bits hold it.
pub proof fn law_digits_have_place_values(word: Seq<char>, digit: char, value: u64)
    requires
        '0' <= digit <= '9',
        number(word) == Some(value),
    ensures
        10 * value + (digit as u32 - '0' as u32) <= u64::MAX ==> number(word.push(digit)) == Some(
            (10 * value + (digit as u32 - '0' as u32)) as u64,
        ),
        10 * value + (digit as u32 - '0' as u32) > u64::MAX ==> number(word.push(digit)) is None,
        number(seq![digit]) == Some((digit as u32 - '0' as u32) as u64),
{
    let longer = word.push(digit);
    let digits = unsigned_part(word);
    assert(unsigned_part(longer) =~= digits.push(digit));
    assert(digits.push(digit).drop_last() =~= digits);
    assert(all_digits(digits.push(digit))) by {
        assert forall|i: int| 0 <= i < digits.push(digit).len() implies is_digit(
            #[trigger] digits.push(digit)[i],
        ) by {
            if i < digits.len() {
                assert(is_digit(digits[i]));
            }
        }
    }
    let single = seq![digit];
    assert(unsigned_part(single) =~= single);
    assert(single.drop_last() =~= Seq::<char>::empty());
    assert(digits_value(Seq::<char>::empty()) == 0);
    assert(digits_value(single) == digit_value(digit));
}

/// A plus sign in front of a digit changes no number; a word with any other sign
/// or letter, or without a digit, is none.
pub proof fn law_only_digits_make_numbers(word: Seq<char>, i: int)
    ensures
        word.len() > 0 && '0' <= word[0] <= '9' ==> number(seq!['+'] + word) == number(word),
        0 < i < word.len() && !('0' <= word[i] <= '9') ==> number(word) is None,
        word.len() > 0 && word[0] != '+' && !('0' <= word[0] <= '9') ==> number(word) is None,
        number(Seq::<char>::empty()) is None,
        number(seq!['+']) is None,
        word.len() > 0 && word[0] == '+' ==> number(seq!['+'] + word) is None,
{
    let signed = seq!['+'] + word;
    assert(unsigned_part(signed) =~= word);
    if word.len() > 0 && word[0] == '+' {
        assert(!is_digit(word[0]));
    }
    if 0 < i < word.len() && !('0' <= word[i] <= '9') {
        let digits = unsigned_part(word);
        let place = if word[0] == '+' {
            i - 1
        } else {
            i
        };
        assert(digits[place] == word[i]);
        assert(!is_digit(digits[place]));
    }
    if word.len() > 0 && word[0] != '+' && !('0' <= word[0] <= '9') {
        assert(!is_digit(unsigned_part(word)[0]));
    }
    assert(unsigned_part(seq!['+']) =~= Seq::<char>::empty());
}

/// A number that grows beyond 64 bits stays none, whatever digits follow.
pub proof fn law_numbers_do_not_come_back(word: Seq<char>, digit: char)
    requires
        '0' <= digit <= '9',
        word.len() > 0,
        word != seq!['+'],
        number(word) is None,
    ensures
        number(word.push(digit)) is None,
{
    let digits = unsigned_part(word);
    let longer = word.push(digit);
    assert(unsigned_part(longer) =~= digits.push(digit));
    assert(digits.push(digit).drop_last() =~= digits);
    if digits.len() == 0 {
        assert(word =~= seq!['+']);
    }
    if !all_digits(digits) {
        let i = choose|i: int| 0 <= i < digits.len() && !is_digit(#[trigger] digits[i]);
        assert(!is_digit(digits.push(digit)[i]));
    }
}

/// A number has no leading zeros, and one digit more than its tenth.
pub proof fn law_decimals_are_shortest(n: nat)
    ensures
        n > 0 ==> decimal(n)[0] != '0',
        n < 10 ==> decimal(n).len() == 1,
        n >= 10 ==> decimal(n).drop_last() == decimal(n / 10),
    decreases n,
{
    if n >= 10 {
        law_decimals_are_shortest(n / 10);
        assert(decimal(n).drop_last() =~= decimal(n / 10));
        lemma_decimal_digits(n / 10);
    }
}

/// The contents of a list are those of its members, one for one.
pub proof fn law_contents_are_member_by_member(
    strings: Seq<String>,
    vectors: Seq<Vec<char>>,
    i: int,
)
    ensures
        contents(strings).len() == strings.len(),
        0 <= i < strings.len() ==> contents(strings)[i] == strings[i]@,
        runs(vectors).len() == vectors.len(),
        0 <= i < vectors.len() ==> runs(vectors)[i] == vectors[i]@,
{
}

/// White space is blanks, tabulators, line ends and the wide and narrow spaces of
/// Unicode, and nothing else.
pub proof fn law_white_space_is_the_unicode_property(c: char)
    ensures
        is_white_space(c) <==> c == '\t' || c == '\n' || c == '\u{b}' || c == '\u{c}' || c == '\r'
            || c == ' ' || c == '\u{85}' || c == '\u{a0}' || c == '\u{1680}' || c == '\u{2000}'
            || c == '\u{2001}' || c == '\u{2002}' || c == '\u{2003}' || c == '\u{2004}'
            || c == '\u{2005}' || c == '\u{2006}' || c == '\u{2007}' || c == '\u{2008}'
            || c == '\u{2009}' || c == '\u{200a}' || c == '\u{2028}' || c == '\u{2029}'
            || c == '\u{202f}' || c == '\u{205f}' || c == '\u{3000}',
{
}

/// Texts are joined in their order, with the separator between neighbours and
/// nowhere else.
pub proof fn law_joined_puts_separators_between(
    pieces: Seq<Seq<char>>,
    piece: Seq<char>,
    separator: Seq<char>,
)
    ensures
        joined(Seq::<Seq<char>>::empty(), separator) == Seq::<char>::empty(),
        joined(seq![piece], separator) == piece,
        pieces.len() > 0 ==> joined(pieces.push(piece), separator) == joined(pieces, separator)
            + separator + piece,
{
    assert(pieces.push(piece).drop_last() =~= pieces);
}

/// A line of white space has no words.
pub proof fn law_white_space_has_no_words(line: Seq<char>)
    requires
        forall|i: int| 0 <= i < line.len() ==> is_white_space(#[trigger] line[i]),
    ensures
        words(line) == Seq::<Seq<char>>::empty(),
    decreases line.len(),
{
    if line.len() > 0 {
        let rest = line.drop_last();
        assert forall|i: int| 0 <= i < rest.len() implies is_white_space(#[trigger] rest[i]) by {
            assert(is_white_space(line[i]));
        }
        law_white_space_has_no_words(rest);
        assert(is_white_space(line[line.len() - 1]));
    }
}

/// A character is a digit exactly if it is written as one, and ten characters
/// are.
pub proof fn law_digits_are_the_ten_figures(d: nat)
    requires
        d < 10,
    ensures
        is_digit(digit_char(d)),
        digit_value(digit_char(d)) == d,
        digit_char(0) == '0',
        digit_char(9) == '9',
        decimal(d) == seq![digit_char(d)],
{
}

} // verus!
