//! Character classes and conversions between strings and character vectors.

use vstd::prelude::*;

verus! {

/// Whether `c` carries the Unicode `White_Space` property.
pub open spec fn is_whitespace(c: char) -> bool {
    let n = c as u32;
    ||| 0x09 <= n <= 0x0D
    ||| n == 0x20
    ||| n == 0x85
    ||| n == 0xA0
    ||| n == 0x1680
    ||| 0x2000 <= n <= 0x200A
    ||| n == 0x2028
    ||| n == 0x2029
    ||| n == 0x202F
    ||| n == 0x205F
    ||| n == 0x3000
}

/// Executable test for the `White_Space` property.
pub fn char_is_whitespace(c: char) -> (b: bool)
    ensures
        b == is_whitespace(c),
{
    let n: u32 = c as u32;
    (0x09 <= n && n <= 0x0D) || n == 0x20 || n == 0x85 || n == 0xA0 || n == 0x1680 || (0x2000 <= n
        && n <= 0x200A) || n == 0x2028 || n == 0x2029 || n == 0x202F || n == 0x205F || n == 0x3000
}

/// Different characters have different code points.
pub proof fn lemma_code_points_differ(c: char, d: char)
    ensures
        c != d ==> c as u32 != d as u32,
{
}

/// `String::push` appends one character.
pub assume_specification[ String::push ](s: &mut String, c: char)
    ensures
        final(s)@ == old(s)@.push(c),
;

/// The characters of `s`, in order.
pub fn to_chars(s: &str) -> (v: Vec<char>)
    ensures
        v@ == s@,
{
    let mut v: Vec<char> = Vec::new();
    for c in it: s.chars()
        invariant
            it.seq() == s@,
            v@ == s@.take(it.index()),
    {
        v.push(c);
    }
    v
}

/// The string made of the characters of `v`, in order.
pub fn from_chars(v: &Vec<char>) -> (s: String)
    ensures
        s@ == v@,
{
    let mut s = String::new();
    let mut i: usize = 0;
    while i < v.len()
        invariant
            i <= v.len(),
            s@ == v@.take(i as int),
        decreases v.len() - i,
    {
        s.push(v[i]);
        i += 1;
    }
    s
}

/// `s` without its trailing whitespace.
pub open spec fn trim_end(s: Seq<char>) -> Seq<char>
    decreases s.len(),
{
    if s.len() > 0 && is_whitespace(s.last()) {
        trim_end(s.drop_last())
    } else {
        s
    }
}

/// Whether `s` holds whitespace only (the empty sequence does).
pub open spec fn is_blank(s: Seq<char>) -> bool {
    forall|i: int| 0 <= i < s.len() ==> is_whitespace(#[trigger] s[i])
}

/// `s` without the run of `c` at its end.
pub open spec fn strip_trailing(s: Seq<char>, c: char) -> Seq<char>
    decreases s.len(),
{
    if s.len() > 0 && s.last() == c {
        strip_trailing(s.drop_last(), c)
    } else {
        s
    }
}

/// `trim_end(s)` is the longest prefix of `s` that does not end in whitespace,
/// and it is empty exactly when `s` is blank.
pub proof fn lemma_trim_end(s: Seq<char>)
    ensures
        trim_end(s).len() <= s.len(),
        trim_end(s) == s.take(trim_end(s).len() as int),
        trim_end(s).len() > 0 ==> !is_whitespace(trim_end(s).last()),
        is_blank(s.skip(trim_end(s).len() as int)),
        trim_end(s).len() == 0 <==> is_blank(s),
    decreases s.len(),
{
    if s.len() > 0 && is_whitespace(s.last()) {
        let p = s.drop_last();
        lemma_trim_end(p);
        let n = trim_end(p).len() as int;
        assert(p.take(n) =~= s.take(n));
        assert forall|i: int| 0 <= i < s.skip(n).len() implies is_whitespace(
            #[trigger] s.skip(n)[i],
        ) by {
            if i < p.skip(n).len() {
                assert(s.skip(n)[i] == p.skip(n)[i]);
            }
        }
        if is_blank(p) {
            assert forall|i: int| 0 <= i < s.len() implies is_whitespace(#[trigger] s[i]) by {
                if i < p.len() {
                    assert(s[i] == p[i]);
                }
            }
        }
        if is_blank(s) {
            assert forall|i: int| 0 <= i < p.len() implies is_whitespace(#[trigger] p[i]) by {
                assert(p[i] == s[i]);
            }
        }
    } else {
        assert(s.take(s.len() as int) =~= s);
        if s.len() > 0 {
            assert(!is_whitespace(s[s.len() - 1]));
        }
    }
}

/// The length of `v` without its trailing whitespace.
pub fn trimmed_len(v: &Vec<char>) -> (n: usize)
    ensures
        n <= v.len(),
        v@.take(n as int) == trim_end(v@),
{
    let mut n: usize = v.len();
    proof {
        assert(v@.take(n as int) =~= v@);
    }
    while n > 0 && char_is_whitespace(v[n - 1])
        invariant
            n <= v.len(),
            trim_end(v@) == trim_end(v@.take(n as int)),
        decreases n,
    {
        proof {
            assert(v@.take(n as int).drop_last() =~= v@.take(n - 1));
        }
        n -= 1;
    }
    n
}

/// The length of the first `end` characters of `v` without the run of `c` at
/// their end.
pub fn stripped_len(v: &Vec<char>, end: usize, c: char) -> (n: usize)
    requires
        end <= v.len(),
    ensures
        n <= end,
        v@.take(n as int) == strip_trailing(v@.take(end as int), c),
{
    let mut n: usize = end;
    while n > 0 && v[n - 1] == c
        invariant
            n <= end <= v.len(),
            strip_trailing(v@.take(end as int), c) == strip_trailing(v@.take(n as int), c),
        decreases n,
    {
        proof {
            assert(v@.take(n as int).drop_last() =~= v@.take(n - 1));
        }
        n -= 1;
    }
    n
}

/// The first `n` characters of `v`, as a string.
pub fn prefix_string(v: &Vec<char>, n: usize) -> (s: String)
    requires
        n <= v.len(),
    ensures
        s@ == v@.take(n as int),
{
    let mut s = String::new();
    let mut i: usize = 0;
    while i < n
        invariant
            i <= n <= v.len(),
            s@ == v@.take(i as int),
        decreases n - i,
    {
        s.push(v[i]);
        proof {
            assert(v@.take(i as int).push(v@[i as int]) =~= v@.take(i + 1));
        }
        i += 1;
    }
    s
}

/// `line` without one carriage return at its end, if it has one.
pub open spec fn strip_carriage_return(line: Seq<char>) -> Seq<char> {
    if line.len() > 0 && line.last() == '\r' {
        line.drop_last()
    } else {
        line
    }
}

/// What reading `s` character by character leaves: the lines that a line feed
/// has closed, and the characters read since the last line feed.
pub struct LineScan {
    pub closed: Seq<Seq<char>>,
    pub open: Seq<char>,
}

/// The scan state after all of `s`. A line feed closes the open line, which
/// loses one carriage return before the line feed; any other character joins
/// the open line.
pub open spec fn scan_lines(s: Seq<char>) -> LineScan
    decreases s.len(),
{
    if s.len() == 0 {
        LineScan { closed: Seq::empty(), open: Seq::empty() }
    } else {
        let before = scan_lines(s.drop_last());
        if s.last() == '\n' {
            LineScan {
                closed: before.closed.push(strip_carriage_return(before.open)),
                open: Seq::empty(),
            }
        } else {
            LineScan { closed: before.closed, open: before.open.push(s.last()) }
        }
    }
}

/// The lines of `s`: the pieces between line feeds, each without the carriage
/// return that stood before its line feed. What follows the last line feed is a
/// line of its own unless it is empty.
pub open spec fn lines_of(s: Seq<char>) -> Seq<Seq<char>> {
    let scan = scan_lines(s);
    if scan.open.len() > 0 {
        scan.closed.push(scan.open)
    } else {
        scan.closed
    }
}

/// The views of a sequence of character vectors.
pub open spec fn rows(v: Seq<Vec<char>>) -> Seq<Seq<char>> {
    v.map_values(|r: Vec<char>| r@)
}

/// Splits `v` into its lines.
pub fn split_lines(v: &Vec<char>) -> (lines: Vec<Vec<char>>)
    ensures
        rows(lines@) == lines_of(v@),
{
    let mut lines: Vec<Vec<char>> = Vec::new();
    let mut open: Vec<char> = Vec::new();
    let mut i: usize = 0;
    proof {
        assert(rows(lines@) =~= Seq::<Seq<char>>::empty());
    }
    while i < v.len()
        invariant
            i <= v.len(),
            rows(lines@) == scan_lines(v@.take(i as int)).closed,
            open@ == scan_lines(v@.take(i as int)).open,
        decreases v.len() - i,
    {
        let c = v[i];
        proof {
            assert(v@.take(i + 1).drop_last() =~= v@.take(i as int));
        }
        if c == '\n' {
            let n = open.len();
            if n > 0 && open[n - 1] == '\r' {
                open.pop();
            }
            let ghost before = rows(lines@);
            let ghost line = open@;
            lines.push(open);
            proof {
                assert(rows(lines@) =~= before.push(line));
            }
            open = Vec::new();
        } else {
            open.push(c);
        }
        i += 1;
    }
    proof {
        assert(v@.take(v.len() as int) =~= v@);
    }
    if open.len() > 0 {
        let ghost before = rows(lines@);
        let ghost line = open@;
        lines.push(open);
        proof {
            assert(rows(lines@) =~= before.push(line));
        }
    }
    lines
}

/// Whether `a` and `b` hold the same characters.
pub fn same_text(a: &str, b: &str) -> (same: bool)
    ensures
        same == (a@ == b@),
{
    let x = to_chars(a);
    let y = to_chars(b);
    if x.len() != y.len() {
        return false;
    }
    let mut i: usize = 0;
    while i < x.len()
        invariant
            i <= x.len(),
            x.len() == y.len(),
            x@ == a@,
            y@ == b@,
            x@.take(i as int) == y@.take(i as int),
        decreases x.len() - i,
    {
        if x[i] != y[i] {
            return false;
        }
        proof {
            assert(x@.take(i + 1) =~= x@.take(i as int).push(x@[i as int]));
            assert(y@.take(i + 1) =~= y@.take(i as int).push(y@[i as int]));
        }
        i += 1;
    }
    proof {
        assert(x@.take(x.len() as int) =~= x@);
        assert(y@.take(y.len() as int) =~= y@);
    }
    true
}

/// The decimal digit `d` as a character.
pub open spec fn digit_char(d: nat) -> char {
    if d == 0 {
        '0'
    } else if d == 1 {
        '1'
    } else if d == 2 {
        '2'
    } else if d == 3 {
        '3'
    } else if d == 4 {
        '4'
    } else if d == 5 {
        '5'
    } else if d == 6 {
        '6'
    } else if d == 7 {
        '7'
    } else if d == 8 {
        '8'
    } else {
        '9'
    }
}

/// The decimal numeral of `n`, without leading zeros.
pub open spec fn decimal(n: nat) -> Seq<char>
    decreases n,
{
    if n < 10 {
        seq![digit_char(n)]
    } else {
        decimal(n / 10).push(digit_char(n % 10))
    }
}

/// The decimal digit `d` as a character.
pub fn digit_of(d: u64) -> (c: char)
    requires
        d < 10,
    ensures
        c == digit_char(d as nat),
{
    if d == 0 {
        '0'
    } else if d == 1 {
        '1'
    } else if d == 2 {
        '2'
    } else if d == 3 {
        '3'
    } else if d == 4 {
        '4'
    } else if d == 5 {
        '5'
    } else if d == 6 {
        '6'
    } else if d == 7 {
        '7'
    } else if d == 8 {
        '8'
    } else {
        '9'
    }
}

/// Appends the decimal numeral of `n` to `s`.
pub fn push_decimal(s: &mut String, n: u64)
    ensures
        final(s)@ == old(s)@ + decimal(n as nat),
    decreases n,
{
    if n >= 10 {
        push_decimal(s, n / 10);
    }
    s.push(digit_of(n % 10));
    proof {
        if n >= 10 {
            assert(final(s)@ =~= old(s)@ + decimal(n as nat));
        } else {
            assert(final(s)@ =~= old(s)@ + decimal(n as nat));
        }
    }
}

/// `s` without its leading whitespace.
pub open spec fn trim_start(s: Seq<char>) -> Seq<char>
    decreases s.len(),
{
    if s.len() > 0 && is_whitespace(s[0]) {
        trim_start(s.drop_first())
    } else {
        s
    }
}

/// `s` without its leading and its trailing whitespace.
pub open spec fn trim(s: Seq<char>) -> Seq<char> {
    trim_end(trim_start(s))
}

/// The characters of `v` from `lo` up to `hi`.
pub fn slice(v: &Vec<char>, lo: usize, hi: usize) -> (r: Vec<char>)
    requires
        lo <= hi <= v.len(),
    ensures
        r@ == v@.subrange(lo as int, hi as int),
{
    let mut r: Vec<char> = Vec::new();
    let mut i: usize = lo;
    while i < hi
        invariant
            lo <= i <= hi <= v.len(),
            r@ == v@.subrange(lo as int, i as int),
        decreases hi - i,
    {
        r.push(v[i]);
        i += 1;
        proof {
            assert(r@ =~= v@.subrange(lo as int, i as int));
        }
    }
    r
}

/// `v` without its leading and its trailing whitespace.
pub fn trim_chars(v: &Vec<char>) -> (r: Vec<char>)
    ensures
        r@ == trim(v@),
{
    let mut lo: usize = 0;
    proof {
        assert(v@.skip(0) =~= v@);
    }
    while lo < v.len() && char_is_whitespace(v[lo])
        invariant
            lo <= v.len(),
            trim_start(v@) == trim_start(v@.skip(lo as int)),
        decreases v.len() - lo,
    {
        proof {
            assert(v@.skip(lo as int).drop_first() =~= v@.skip(lo + 1));
        }
        lo += 1;
    }
    let rest = slice(v, lo, v.len());
    proof {
        assert(rest@ =~= v@.skip(lo as int));
        assert(rest@ == trim_start(v@));
    }
    let n = trimmed_len(&rest);
    let r = slice(&rest, 0, n);
    proof {
        assert(r@ =~= rest@.take(n as int));
    }
    r
}

/// Whether `pattern` stands in `s` at the index `i`.
pub open spec fn occurs_at(s: Seq<char>, pattern: Seq<char>, i: int) -> bool {
    0 <= i && i + pattern.len() <= s.len() && s.subrange(i, i + pattern.len()) == pattern
}

/// The first index from `i` on at which `pattern` stands in `s`, if any.
pub open spec fn find_from(s: Seq<char>, pattern: Seq<char>, i: int) -> Option<int>
    decreases s.len() - i,
{
    if i < 0 || i + pattern.len() > s.len() {
        None
    } else if occurs_at(s, pattern, i) {
        Some(i)
    } else if i >= s.len() {
        None
    } else {
        find_from(s, pattern, i + 1)
    }
}

/// The first index at which `pattern` stands in `s`, if any.
pub open spec fn find(s: Seq<char>, pattern: Seq<char>) -> Option<int> {
    find_from(s, pattern, 0)
}

/// What `find_from` finds is the first occurrence from `i` on, and it finds
/// none only where there is none.
pub proof fn lemma_find_from(s: Seq<char>, pattern: Seq<char>, i: int)
    requires
        0 <= i,
    ensures
        find_from(s, pattern, i) matches Some(k) ==> i <= k && occurs_at(s, pattern, k) && forall|
            j: int,
        | i <= j < k ==> !occurs_at(s, pattern, j),
        find_from(s, pattern, i) is None ==> forall|j: int| i <= j ==> !occurs_at(s, pattern, j),
    decreases s.len() - i,
{
    if i + pattern.len() <= s.len() && !occurs_at(s, pattern, i) && i < s.len() {
        lemma_find_from(s, pattern, i + 1);
    }
}

/// Whether `pattern` stands in `v` at the index `i`.
fn matches_at(v: &Vec<char>, pattern: &Vec<char>, i: usize) -> (m: bool)
    requires
        i + pattern.len() <= v.len(),
    ensures
        m == occurs_at(v@, pattern@, i as int),
{
    let mut k: usize = 0;
    while k < pattern.len()
        invariant
            k <= pattern.len(),
            i + pattern.len() <= v.len(),
            forall|j: int| 0 <= j < k ==> v@[i + j] == pattern@[j],
        decreases pattern.len() - k,
    {
        if v[i + k] != pattern[k] {
            proof {
                assert(v@.subrange(i as int, i + pattern.len())[k as int] == v@[i + k]);
            }
            return false;
        }
        k += 1;
    }
    proof {
        assert(v@.subrange(i as int, i + pattern.len()) =~= pattern@);
    }
    true
}

/// The first index at which `pattern` stands in `v`, if any.
pub fn find_text(v: &Vec<char>, pattern: &Vec<char>) -> (found: Option<usize>)
    ensures
        found is Some <==> find(v@, pattern@) is Some,
        found matches Some(k) ==> find(v@, pattern@) == Some(k as int) && k + pattern.len()
            <= v.len(),
{
    if pattern.len() > v.len() {
        return None;
    }
    let last: usize = v.len() - pattern.len();
    let mut i: usize = 0;
    loop
        invariant
            i <= last,
            last == v.len() - pattern.len(),
            find(v@, pattern@) == find_from(v@, pattern@, i as int),
        decreases last - i,
    {
        if matches_at(v, pattern, i) {
            return Some(i);
        }
        if i == last {
            proof {
                assert(find_from(v@, pattern@, i + 1) is None);
            }
            return None;
        }
        i += 1;
    }
}

/// The first occurrence of a pattern is what `find` finds.
pub proof fn lemma_find_first(s: Seq<char>, pattern: Seq<char>, i: int, k: int)
    requires
        0 <= i <= k,
        occurs_at(s, pattern, k),
        forall|j: int| i <= j < k ==> !occurs_at(s, pattern, j),
    ensures
        find_from(s, pattern, i) == Some(k),
    decreases k - i,
{
    if i < k {
        lemma_find_first(s, pattern, i + 1, k);
    }
}

/// A numeral holds digits only, one at least.
pub proof fn lemma_decimal_digits(n: nat)
    ensures
        decimal(n).len() >= 1,
        forall|i: int| 0 <= i < decimal(n).len() ==> '0' <= #[trigger] decimal(n)[i] <= '9',
    decreases n,
{
    if n >= 10 {
        lemma_decimal_digits(n / 10);
    }
}

} // verus!
