//! The position log: one line for each position that a drag has left the
//! overlay at, of the form `Dragging: x=12, y=34`.

use crate::chars::{
    decimal, find, find_text, from_chars, is_whitespace, lemma_decimal_digits, lemma_find_first,
    lines_of, occurs_at, push_decimal, rows, slice, split_lines, to_chars, trim, trim_chars,
    trim_end, trim_start,
};
use crate::numbers::{
    char_is_digit, is_digit, lemma_decimal_value, numeral_digits, parse_i32, parse_i32_chars,
};
use vstd::prelude::*;
use vstd::string::StringExecFns;

verus! {

/// What follows the first occurrence of `pattern` in `s`, if there is one.
pub open spec fn after(s: Seq<char>, pattern: Seq<char>) -> Option<Seq<char>> {
    match find(s, pattern) {
        Some(i) => Some(s.skip(i + pattern.len())),
        None => None,
    }
}

/// `s` without the characters at its end that are neither a digit nor a
/// minus sign.
pub open spec fn strip_tail(s: Seq<char>) -> Seq<char>
    decreases s.len(),
{
    if s.len() > 0 && !is_digit(s.last()) && s.last() != '-' {
        strip_tail(s.drop_last())
    } else {
        s
    }
}

/// The horizontal margin that `line` records: the number between the first
/// `x=` and the first comma after it, whatever whitespace is around it.
pub open spec fn line_x(line: Seq<char>) -> Option<i32> {
    match after(line, "x="@) {
        Some(rest) => match find(rest, ","@) {
            Some(comma) => parse_i32(trim(rest.take(comma))),
            None => None,
        },
        None => None,
    }
}

/// The vertical margin that `line` records: the number after the first `y=`,
/// whatever whitespace is around it and whatever follows its last digit.
pub open spec fn line_y(line: Seq<char>) -> Option<i32> {
    match after(line, "y="@) {
        Some(rest) => parse_i32(strip_tail(trim(rest))),
        None => None,
    }
}

/// The margins that `line` records: those of an entry of the log that records
/// both margins well. A line without `Dragging:` is no entry, and an entry
/// that lacks a margin or records one badly is passed over as a whole.
pub open spec fn line_margins(line: Seq<char>) -> Option<(i32, i32)> {
    if find(line, "Dragging:"@) is Some {
        match (line_x(line), line_y(line)) {
            (Some(x), Some(y)) => Some((x, y)),
            _ => None,
        }
    } else {
        None
    }
}

/// What reading a log has found: the margins of the last entry that
/// recorded both well, and that entry.
pub struct MarginScan {
    pub margins: Option<(i32, i32)>,
    pub last_line: Seq<char>,
}

/// What has been found after one more line: the line and its margins where it
/// records both well, and else what was found before.
pub open spec fn scan_line(scan: MarginScan, line: Seq<char>) -> MarginScan {
    match line_margins(line) {
        Some(margins) => MarginScan { margins: Some(margins), last_line: line },
        None => scan,
    }
}

/// What has been found after `lines`.
pub open spec fn scan_lines(lines: Seq<Seq<char>>) -> MarginScan
    decreases lines.len(),
{
    if lines.len() == 0 {
        MarginScan { margins: None, last_line: Seq::empty() }
    } else {
        scan_line(scan_lines(lines.drop_last()), lines.last())
    }
}

/// What a position log says.
#[derive(Debug, Clone, PartialEq, Eq)]
pub struct MarginLog {
    /// The margins of the last entry that recorded both well; `None` if
    /// there is no such entry.
    pub margins: Option<(i32, i32)>,
    /// That entry; empty if there is none. It is all that the log needs to
    /// keep.
    pub last_line: String,
}

/// The length of `v` without the characters at its end that are neither a
/// digit nor a minus sign.
fn tail_stripped_len(v: &Vec<char>) -> (n: usize)
    ensures
        n <= v.len(),
        v@.take(n as int) == strip_tail(v@),
{
    let mut n: usize = v.len();
    proof {
        assert(v@.take(n as int) =~= v@);
    }
    while n > 0 && !char_is_digit(v[n - 1]) && v[n - 1] != '-'
        invariant
            n <= v.len(),
            strip_tail(v@) == strip_tail(v@.take(n as int)),
        decreases n,
    {
        proof {
            assert(v@.take(n as int).drop_last() =~= v@.take(n - 1));
        }
        n -= 1;
    }
    n
}

/// The horizontal margin that `line` records.
fn read_x(line: &Vec<char>) -> (x: Option<i32>)
    ensures
        x == line_x(line@),
{
    let key = to_chars("x=");
    let comma = to_chars(",");
    match find_text(line, &key) {
        None => None,
        Some(i) => {
            let rest = slice(line, i + key.len(), line.len());
            proof {
                assert(rest@ =~= line@.skip(i + key.len()));
            }
            match find_text(&rest, &comma) {
                None => None,
                Some(c) => {
                    let field = slice(&rest, 0, c);
                    proof {
                        assert(field@ =~= rest@.take(c as int));
                    }
                    parse_i32_chars(&trim_chars(&field))
                },
            }
        },
    }
}

/// The vertical margin that `line` records.
fn read_y(line: &Vec<char>) -> (y: Option<i32>)
    ensures
        y == line_y(line@),
{
    let key = to_chars("y=");
    match find_text(line, &key) {
        None => None,
        Some(i) => {
            let rest = slice(line, i + key.len(), line.len());
            proof {
                assert(rest@ =~= line@.skip(i + key.len()));
            }
            let trimmed = trim_chars(&rest);
            let n = tail_stripped_len(&trimmed);
            let field = slice(&trimmed, 0, n);
            proof {
                assert(field@ =~= trimmed@.take(n as int));
            }
            parse_i32_chars(&field)
        },
    }
}

/// Reads a position log: the margins of its last entry that records both
/// margins well, and that entry, which is the line to keep. Every other line
/// is passed over as a whole.
pub fn load_margins_from_log(content: &str) -> (log: MarginLog)
    ensures
        log.margins == scan_lines(lines_of(content@)).margins,
        log.last_line@ == scan_lines(lines_of(content@)).last_line,
{
    let chars = to_chars(content);
    let lines = split_lines(&chars);
    let marker = to_chars("Dragging:");
    let mut margins: Option<(i32, i32)> = None;
    let mut last_line: Vec<char> = Vec::new();
    let mut i: usize = 0;
    let ghost all = rows(lines@);
    proof {
        assert(all.take(0) =~= Seq::<Seq<char>>::empty());
    }
    while i < lines.len()
        invariant
            i <= lines.len(),
            all == rows(lines@),
            marker@ == "Dragging:"@,
            scan_lines(all.take(i as int)) == (MarginScan { margins, last_line: last_line@ }),
        decreases lines.len() - i,
    {
        let line = &lines[i];
        proof {
            assert(all.take(i + 1).drop_last() =~= all.take(i as int));
            assert(all.take(i + 1).last() == line@);
        }
        if find_text(line, &marker).is_some() {
            match (read_x(line), read_y(line)) {
                (Some(x), Some(y)) => {
                    margins = Some((x, y));
                    last_line = slice(line, 0, line.len());
                    proof {
                        assert(last_line@ =~= line@);
                    }
                },
                _ => {},
            }
        }
        i += 1;
    }
    proof {
        assert(all.take(lines.len() as int) =~= all);
    }
    MarginLog { margins, last_line: from_chars(&last_line) }
}

/// The numeral of `n` in decimal, with a minus sign where `n` is negative.
pub open spec fn signed_decimal(n: int) -> Seq<char> {
    if n < 0 {
        seq!['-'] + decimal((-n) as nat)
    } else {
        decimal(n as nat)
    }
}

/// The line that records the margins `(x, y)`.
pub open spec fn margin_line(x: i32, y: i32) -> Seq<char> {
    "Dragging: x="@ + signed_decimal(x as int) + ", y="@ + signed_decimal(y as int)
}

/// Appends the numeral of `n` to `s`.
fn push_signed(s: &mut String, n: i32)
    ensures
        final(s)@ == old(s)@ + signed_decimal(n as int),
{
    if n < 0 {
        s.push('-');
        push_decimal(s, (-(n as i64)) as u64);
        proof {
            assert(final(s)@ =~= old(s)@ + signed_decimal(n as int));
        }
    } else {
        push_decimal(s, n as u64);
    }
}

/// The line that records the margins `(x, y)` in the position log.
pub fn format_margin_line(x: i32, y: i32) -> (line: String)
    ensures
        line@ == margin_line(x, y),
{
    let mut line = String::from_str("Dragging: x=");
    push_signed(&mut line, x);
    line.append(", y=");
    push_signed(&mut line, y);
    line
}

/// The numeral of an `i32` holds digits and at most a minus sign before them,
/// ends in a digit, and reads back as that number.
pub proof fn lemma_signed_decimal(x: i32)
    ensures
        signed_decimal(x as int).len() >= 1,
        forall|i: int|
            0 <= i < signed_decimal(x as int).len() ==> is_digit(
                #[trigger] signed_decimal(x as int)[i],
            ) || signed_decimal(x as int)[i] == '-',
        is_digit(signed_decimal(x as int).last()),
        parse_i32(signed_decimal(x as int)) == Some(x),
{
    let s = signed_decimal(x as int);
    if x < 0 {
        let d = decimal((-x) as nat);
        lemma_decimal_digits((-x) as nat);
        lemma_decimal_value((-x) as nat);
        assert(s[0] == '-');
        assert(s.skip(1) =~= d);
        assert(numeral_digits(s, true) == d);
        assert forall|i: int| 0 <= i < s.len() implies is_digit(#[trigger] s[i]) || s[i] == '-' by {
            if i > 0 {
                assert(s[i] == d[i - 1]);
            }
        }
        assert(s.last() == d.last());
    } else {
        let d = decimal(x as nat);
        lemma_decimal_digits(x as nat);
        lemma_decimal_value(x as nat);
        assert(is_digit(s[0]));
        assert(numeral_digits(s, true) == s);
    }
}

/// Text that begins and ends with a digit or a minus sign has no whitespace to
/// trim.
pub proof fn lemma_numeral_is_trimmed(s: Seq<char>)
    requires
        s.len() >= 1,
        is_digit(s[0]) || s[0] == '-',
        is_digit(s.last()),
    ensures
        trim(s) == s,
        strip_tail(trim(s)) == s,
{
    assert(!is_whitespace(s[0]));
    assert(!is_whitespace(s.last()));
    assert(trim_start(s) == s);
    assert(trim_end(s) == s);
}

/// The characters of the line that records the margins `(x, y)`: the marker
/// and `x=`, the numeral of `x`, a comma, a space and `y=`, the numeral of `y`.
proof fn lemma_margin_line_shape(x: i32, y: i32)
    ensures
        ({
            let sx = signed_decimal(x as int);
            let n = sx.len() as int;
            let sy = signed_decimal(y as int);
            let line = margin_line(x, y);
            &&& line.len() == 12 + sx.len() + 4 + sy.len()
            &&& line.subrange(0, 9) == "Dragging:"@
            &&& line.subrange(10, 12) == "x="@
            &&& forall|j: int| 0 <= j < 10 ==> line[j] != 'x' && line[j] != 'y'
            &&& line[10] != 'y' && line[11] != 'y'
            &&& forall|j: int| 0 <= j < sx.len() ==> line[12 + j] == sx[j]
            &&& line[12 + n] == ','
            &&& line[13 + n] == ' '
            &&& line.subrange(14 + n, 16 + n) == "y="@
            &&& line.skip(16 + n) == sy
            &&& line.skip(12) == sx + ", y="@ + sy
        }),
{
    reveal_strlit("Dragging: x=");
    reveal_strlit("Dragging:");
    reveal_strlit(", y=");
    reveal_strlit("x=");
    reveal_strlit("y=");
    let head = "Dragging: x="@;
    let mid = ", y="@;
    let sx = signed_decimal(x as int);
    let sy = signed_decimal(y as int);
    let line = margin_line(x, y);
    let n = sx.len() as int;
    assert(line.len() == 12 + sx.len() + 4 + sy.len());
    assert forall|j: int| 0 <= j < 12 implies line[j] == head[j] by {}
    assert forall|j: int| 0 <= j < sx.len() implies line[12 + j] == sx[j] by {}
    assert forall|j: int| 0 <= j < 4 implies line[12 + sx.len() + j] == mid[j] by {}
    assert(line.subrange(0, 9) =~= "Dragging:"@);
    assert(line.subrange(10, 12) =~= "x="@);
    assert(line.subrange(14 + n, 16 + n) =~= "y="@);
    assert(line.skip(16 + n) =~= sy);
    assert(line.skip(12) =~= sx + mid + sy);
}

/// The line that records the margins `(x, y)` records `x` as its horizontal
/// margin.
proof fn lemma_margin_line_x(x: i32, y: i32)
    ensures
        line_x(margin_line(x, y)) == Some(x),
{
    reveal_strlit("x=");
    reveal_strlit(",");
    reveal_strlit(", y=");
    let sx = signed_decimal(x as int);
    let sy = signed_decimal(y as int);
    let line = margin_line(x, y);
    lemma_margin_line_shape(x, y);
    lemma_signed_decimal(x);
    lemma_numeral_is_trimmed(sx);
    assert forall|j: int| 0 <= j < 10 implies !occurs_at(line, "x="@, j) by {
        assert(line.subrange(j, j + 2)[0] == line[j]);
    }
    lemma_find_first(line, "x="@, 0, 10);
    let rest = line.skip(12);
    assert(rest[sx.len() as int] == ',');
    assert(rest.subrange(sx.len() as int, sx.len() as int + 1) =~= ","@);
    assert forall|j: int| 0 <= j < sx.len() implies !occurs_at(rest, ","@, j) by {
        assert(rest.subrange(j, j + 1)[0] == rest[j]);
        assert(rest[j] == sx[j]);
        assert(is_digit(sx[j]) || sx[j] == '-');
    }
    lemma_find_first(rest, ","@, 0, sx.len() as int);
    assert(rest.take(sx.len() as int) =~= sx);
}

/// The line that records the margins `(x, y)` records `y` as its vertical
/// margin.
proof fn lemma_margin_line_y(x: i32, y: i32)
    ensures
        line_y(margin_line(x, y)) == Some(y),
{
    reveal_strlit("y=");
    let sx = signed_decimal(x as int);
    let sy = signed_decimal(y as int);
    let line = margin_line(x, y);
    lemma_margin_line_shape(x, y);
    lemma_signed_decimal(x);
    lemma_signed_decimal(y);
    lemma_numeral_is_trimmed(sy);
    let k: int = 14 + sx.len() as int;
    assert forall|j: int| 0 <= j < k implies !occurs_at(line, "y="@, j) by {
        if j + 2 <= line.len() {
            assert(line.subrange(j, j + 2)[0] == line[j]);
            if j >= 12 && j < 12 + sx.len() {
                assert(line[j] == sx[j - 12]);
                assert(is_digit(sx[j - 12]) || sx[j - 12] == '-');
            }
            assert(line[j] != 'y');
        }
    }
    lemma_find_first(line, "y="@, 0, k);
}

/// What is logged can be read back: the line that records the margins
/// `(x, y)` is an entry of the log, and the margins that it records are `x` and
/// `y`, whatever was found before it.
pub proof fn lemma_margin_line_reads_back(x: i32, y: i32, before: MarginScan)
    ensures
        find(margin_line(x, y), "Dragging:"@) is Some,
        line_x(margin_line(x, y)) == Some(x),
        line_y(margin_line(x, y)) == Some(y),
        line_margins(margin_line(x, y)) == Some((x, y)),
        scan_line(before, margin_line(x, y)) == (MarginScan {
            margins: Some((x, y)),
            last_line: margin_line(x, y),
        }),
{
    lemma_margin_line_shape(x, y);
    lemma_find_first(margin_line(x, y), "Dragging:"@, 0, 0);
    lemma_margin_line_x(x, y);
    lemma_margin_line_y(x, y);
}

} // verus!
