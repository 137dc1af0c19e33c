//! Ordering pieces of text, and splitting and joining text at a separator.

use crate::chars::lemma_code_points_differ;
use vstd::prelude::*;

verus! {

/// Whether `a` comes before `b` or equals it, comparing character by
/// character and, where one is the beginning of the other, the shorter first.
/// This is also the order of their bytes in UTF-8.
pub open spec fn lex_le(a: Seq<char>, b: Seq<char>) -> bool
    decreases a.len(),
{
    if a.len() == 0 {
        true
    } else if b.len() == 0 {
        false
    } else if a[0] != b[0] {
        (a[0] as u32) < (b[0] as u32)
    } else {
        lex_le(a.drop_first(), b.drop_first())
    }
}

/// Whether each of `parts` comes before the next or equals it.
pub open spec fn is_sorted(parts: Seq<Seq<char>>) -> bool {
    forall|i: int, j: int| 0 <= i <= j < parts.len() ==> lex_le(parts[i], parts[j])
}

/// `sorted` with `x` put in after the last part that does not come after it.
pub open spec fn insert_sorted(sorted: Seq<Seq<char>>, x: Seq<char>) -> Seq<Seq<char>>
    decreases sorted.len(),
{
    if sorted.len() == 0 {
        seq![x]
    } else if lex_le(sorted.last(), x) {
        sorted.push(x)
    } else {
        insert_sorted(sorted.drop_last(), x).push(sorted.last())
    }
}

/// The parts `parts` in order.
pub open spec fn sort(parts: Seq<Seq<char>>) -> Seq<Seq<char>>
    decreases parts.len(),
{
    if parts.len() == 0 {
        Seq::empty()
    } else {
        insert_sorted(sort(parts.drop_last()), parts.last())
    }
}

/// Of two pieces of text one comes before the other or equals it.
pub proof fn lemma_lex_total(a: Seq<char>, b: Seq<char>)
    ensures
        lex_le(a, b) || lex_le(b, a),
    decreases a.len(),
{
    if a.len() > 0 && b.len() > 0 {
        if a[0] == b[0] {
            lemma_lex_total(a.drop_first(), b.drop_first());
        } else {
            lemma_code_points_differ(a[0], b[0]);
        }
    }
}

/// The order of pieces of text is transitive.
pub proof fn lemma_lex_transitive(a: Seq<char>, b: Seq<char>, c: Seq<char>)
    requires
        lex_le(a, b),
        lex_le(b, c),
    ensures
        lex_le(a, c),
    decreases a.len(),
{
    if a.len() > 0 && b.len() > 0 && c.len() > 0 && a[0] == b[0] && b[0] == c[0] {
        lemma_lex_transitive(a.drop_first(), b.drop_first(), c.drop_first());
    }
}

/// Putting a part into sorted parts gives sorted parts with the same parts and
/// that one more.
pub proof fn lemma_insert_sorted(sorted: Seq<Seq<char>>, x: Seq<char>)
    requires
        is_sorted(sorted),
    ensures
        is_sorted(insert_sorted(sorted, x)),
        insert_sorted(sorted, x).to_multiset() == sorted.to_multiset().insert(x),
        insert_sorted(sorted, x).len() == sorted.len() + 1,
    decreases sorted.len(),
{
    broadcast use vstd::seq_lib::group_to_multiset_ensures;

    let r = insert_sorted(sorted, x);
    if sorted.len() == 0 {
        assert(sorted =~= Seq::<Seq<char>>::empty());
        assert(r =~= Seq::<Seq<char>>::empty().push(x));
        lemma_lex_total(x, x);
    } else if lex_le(sorted.last(), x) {
        assert forall|i: int, j: int| 0 <= i <= j < r.len() implies lex_le(r[i], r[j]) by {
            if j == r.len() - 1 {
                if i < j {
                    assert(lex_le(sorted[i], sorted[sorted.len() - 1]));
                    lemma_lex_transitive(sorted[i], sorted.last(), x);
                } else {
                    lemma_lex_total(x, x);
                }
            } else {
                assert(lex_le(sorted[i], sorted[j]));
            }
        }
    } else {
        let head = sorted.drop_last();
        let inner = insert_sorted(head, x);
        assert(is_sorted(head)) by {
            assert forall|i: int, j: int| 0 <= i <= j < head.len() implies lex_le(
                head[i],
                head[j],
            ) by {
                assert(head[i] == sorted[i] && head[j] == sorted[j]);
            }
        }
        lemma_insert_sorted(head, x);
        lemma_lex_total(sorted.last(), x);
        assert(sorted =~= head.push(sorted.last()));
        assert forall|k: int| 0 <= k < inner.len() implies lex_le(inner[k], sorted.last()) by {
            assert(inner.to_multiset().count(inner[k]) > 0);
            if inner[k] != x {
                assert(head.to_multiset().count(inner[k]) > 0);
                let m = choose|m: int| 0 <= m < head.len() && head[m] == inner[k];
                assert(lex_le(sorted[m], sorted[sorted.len() - 1]));
            }
        }
        assert forall|i: int, j: int| 0 <= i <= j < r.len() implies lex_le(r[i], r[j]) by {
            if j == r.len() - 1 {
                if i < j {
                    assert(r[i] == inner[i]);
                    assert(lex_le(inner[i], sorted.last()));
                } else {
                    lemma_lex_total(sorted.last(), sorted.last());
                }
            } else {
                assert(r[i] == inner[i] && r[j] == inner[j]);
                assert(lex_le(inner[i], inner[j]));
            }
        }
    }
}

/// Sorting gives the same parts in order.
pub proof fn lemma_sort(parts: Seq<Seq<char>>)
    ensures
        is_sorted(sort(parts)),
        sort(parts).to_multiset() == parts.to_multiset(),
        sort(parts).len() == parts.len(),
    decreases parts.len(),
{
    broadcast use vstd::seq_lib::group_to_multiset_ensures;

    if parts.len() > 0 {
        lemma_sort(parts.drop_last());
        lemma_insert_sorted(sort(parts.drop_last()), parts.last());
        assert(parts =~= parts.drop_last().push(parts.last()));
    } else {
        assert(parts =~= Seq::<Seq<char>>::empty());
        assert(sort(parts) =~= Seq::<Seq<char>>::empty());
    }
}

/// What reading `s` character by character leaves: the parts that a separator
/// has closed, and the characters read since the last separator.
pub struct SplitScan {
    pub closed: Seq<Seq<char>>,
    pub open: Seq<char>,
}

/// The scan state after all of `s`.
pub open spec fn scan_parts(s: Seq<char>, separator: char) -> SplitScan
    decreases s.len(),
{
    if s.len() == 0 {
        SplitScan { closed: Seq::empty(), open: Seq::empty() }
    } else {
        let before = scan_parts(s.drop_last(), separator);
        if s.last() == separator {
            SplitScan { closed: before.closed.push(before.open), open: Seq::empty() }
        } else {
            SplitScan { closed: before.closed, open: before.open.push(s.last()) }
        }
    }
}

/// The parts of `s` between its separators: one more than it has separators.
pub open spec fn split(s: Seq<char>, separator: char) -> Seq<Seq<char>> {
    scan_parts(s, separator).closed.push(scan_parts(s, separator).open)
}

/// `parts` with `separator` between each two of them.
pub open spec fn join(parts: Seq<Seq<char>>, separator: char) -> Seq<char>
    decreases parts.len(),
{
    if parts.len() == 0 {
        Seq::empty()
    } else if parts.len() == 1 {
        parts[0]
    } else {
        join(parts.drop_last(), separator).push(separator) + parts.last()
    }
}

/// Splitting at a separator and joining with it gives the text back, and no
/// part holds the separator.
pub proof fn lemma_join_split(s: Seq<char>, separator: char)
    ensures
        join(split(s, separator), separator) == s,
        forall|i: int, k: int|
            0 <= i < split(s, separator).len() && 0 <= k < split(s, separator)[i].len()
                ==> #[trigger] split(s, separator)[i][k] != separator,
    decreases s.len(),
{
    if s.len() == 0 {
        assert(split(s, separator) =~= seq![Seq::<char>::empty()]);
        assert(join(split(s, separator), separator) =~= s);
    } else {
        let before = s.drop_last();
        lemma_join_split(before, separator);
        let sb = scan_parts(before, separator);
        let pb = split(before, separator);
        let p = split(s, separator);
        assert(s =~= before.push(s.last()));
        if s.last() == separator {
            assert(p =~= pb.push(Seq::<char>::empty()));
            assert(p.drop_last() =~= pb);
            assert(join(p, separator) =~= join(pb, separator).push(separator));
        } else {
            assert(p =~= sb.closed.push(sb.open.push(s.last())));
            assert(p.drop_last() =~= sb.closed);
            assert(pb.drop_last() =~= sb.closed);
            if sb.closed.len() == 0 {
                assert(join(pb, separator) == sb.open);
                assert(join(p, separator) =~= s);
            } else {
                assert(join(pb, separator) == join(sb.closed, separator).push(separator) + sb.open);
                assert(join(p, separator) =~= join(pb, separator).push(s.last()));
            }
            assert forall|i: int, k: int| 0 <= i < p.len() && 0 <= k < p[i].len() implies #[trigger] p[i][k]
                != separator by {
                if i < p.len() - 1 {
                    assert(p[i] == pb[i]);
                } else if k < sb.open.len() {
                    assert(p[i][k] == pb[pb.len() - 1][k]);
                }
            }
        }
        if s.last() == separator {
            assert forall|i: int, k: int| 0 <= i < p.len() && 0 <= k < p[i].len() implies #[trigger] p[i][k]
                != separator by {
                assert(p[i] == pb[i]);
            }
        }
    }
}

/// Whether `a` comes before `b` or equals it.
pub fn text_le(a: &Vec<char>, b: &Vec<char>) -> (le: bool)
    ensures
        le == lex_le(a@, b@),
{
    let mut i: usize = 0;
    proof {
        assert(a@.skip(0) =~= a@);
        assert(b@.skip(0) =~= b@);
    }
    loop
        invariant
            i <= a.len(),
            i <= b.len(),
            lex_le(a@, b@) == lex_le(a@.skip(i as int), b@.skip(i as int)),
        decreases a.len() - i,
    {
        if i == a.len() {
            return true;
        }
        if i == b.len() {
            return false;
        }
        if a[i] != b[i] {
            return (a[i] as u32) < (b[i] as u32);
        }
        proof {
            assert(a@.skip(i as int).drop_first() =~= a@.skip(i + 1));
            assert(b@.skip(i as int).drop_first() =~= b@.skip(i + 1));
        }
        i += 1;
    }
}

/// The views of a sequence of character vectors.
pub open spec fn part_views(v: Seq<Vec<char>>) -> Seq<Seq<char>> {
    v.map_values(|p: Vec<char>| p@)
}

/// Where `x` goes in the sorted parts `sorted`: after the last part that does
/// not come after it.
pub proof fn lemma_insert_position(sorted: Seq<Seq<char>>, x: Seq<char>, i: int)
    requires
        0 <= i <= sorted.len(),
        i > 0 ==> lex_le(sorted[i - 1], x),
        forall|k: int| i <= k < sorted.len() ==> !lex_le(#[trigger] sorted[k], x),
    ensures
        insert_sorted(sorted, x) == sorted.take(i).push(x) + sorted.skip(i),
    decreases sorted.len(),
{
    if sorted.len() == 0 {
        assert(sorted.take(i).push(x) + sorted.skip(i) =~= seq![x]);
    } else if i == sorted.len() {
        assert(sorted.take(i).push(x) + sorted.skip(i) =~= sorted.push(x));
    } else {
        let head = sorted.drop_last();
        assert(!lex_le(sorted[sorted.len() - 1], x));
        assert forall|k: int| i <= k < head.len() implies !lex_le(#[trigger] head[k], x) by {
            assert(head[k] == sorted[k]);
        }
        if i > 0 {
            assert(head[i - 1] == sorted[i - 1]);
        }
        lemma_insert_position(head, x, i);
        assert(head.take(i) =~= sorted.take(i));
        assert((head.take(i).push(x) + head.skip(i)).push(sorted.last()) =~= sorted.take(i).push(x)
            + sorted.skip(i));
    }
}

/// Sorts `parts`.
pub fn sort_parts(parts: Vec<Vec<char>>) -> (sorted: Vec<Vec<char>>)
    ensures
        part_views(sorted@) == sort(part_views(parts@)),
{
    let mut sorted: Vec<Vec<char>> = Vec::new();
    let mut parts = parts;
    let ghost all = part_views(parts@);
    let mut n: usize = 0;
    let total = parts.len();
    let mut rest: Vec<Vec<char>> = Vec::new();
    // Take the parts from the end, so that they can be put in from the front.
    while parts.len() > 0
        invariant
            parts.len() + rest.len() == total,
            all.len() == total,
            part_views(parts@) == all.take(parts.len() as int),
            forall|k: int| 0 <= k < rest.len() ==> (#[trigger] rest@[k])@ == all[total - 1 - k],
        decreases parts.len(),
    {
        let ghost before = part_views(parts@);
        let p = parts.pop().unwrap();
        proof {
            assert(part_views(parts@) =~= before.drop_last());
            assert(part_views(parts@) =~= all.take(parts.len() as int));
            assert(p@ == before.last());
        }
        rest.push(p);
    }
    proof {
        assert(part_views(sorted@) =~= Seq::<Seq<char>>::empty());
        assert(all.take(0) =~= Seq::<Seq<char>>::empty());
    }
    while rest.len() > 0
        invariant
            n + rest.len() == total,
            all.len() == total,
            forall|k: int| 0 <= k < rest.len() ==> (#[trigger] rest@[k])@ == all[total - 1 - k],
            part_views(sorted@) == sort(all.take(n as int)),
        decreases rest.len(),
    {
        let x = rest.pop().unwrap();
        proof {
            assert(x@ == all[n as int]);
            assert(all.take(n + 1).drop_last() =~= all.take(n as int));
        }
        let mut i: usize = sorted.len();
        while i > 0 && !text_le(&sorted[i - 1], &x)
            invariant
                i <= sorted.len(),
                forall|k: int|
                    i <= k < sorted.len() ==> !lex_le(#[trigger] part_views(sorted@)[k], x@),
            decreases i,
        {
            i -= 1;
        }
        let ghost before = part_views(sorted@);
        proof {
            if i > 0 {
                assert(before[i - 1] == sorted@[i - 1]@);
            }
            lemma_insert_position(before, x@, i as int);
        }
        sorted.insert(i, x);
        proof {
            assert(part_views(sorted@) =~= before.take(i as int).push(x@) + before.skip(i as int));
        }
        n += 1;
    }
    proof {
        assert(all.take(total as int) =~= all);
    }
    sorted
}

/// The parts of `v` between its separators.
pub fn split_parts(v: &Vec<char>, separator: char) -> (parts: Vec<Vec<char>>)
    ensures
        part_views(parts@) == split(v@, separator),
        parts.len() >= 1,
{
    let mut parts: Vec<Vec<char>> = Vec::new();
    let mut open: Vec<char> = Vec::new();
    let mut i: usize = 0;
    proof {
        assert(part_views(parts@) =~= Seq::<Seq<char>>::empty());
    }
    while i < v.len()
        invariant
            i <= v.len(),
            part_views(parts@) == scan_parts(v@.take(i as int), separator).closed,
            open@ == scan_parts(v@.take(i as int), separator).open,
        decreases v.len() - i,
    {
        proof {
            assert(v@.take(i + 1).drop_last() =~= v@.take(i as int));
        }
        if v[i] == separator {
            let ghost before = part_views(parts@);
            let ghost part = open@;
            parts.push(open);
            proof {
                assert(part_views(parts@) =~= before.push(part));
            }
            open = Vec::new();
        } else {
            open.push(v[i]);
        }
        i += 1;
    }
    proof {
        assert(v@.take(v.len() as int) =~= v@);
    }
    let ghost before = part_views(parts@);
    let ghost part = open@;
    parts.push(open);
    proof {
        assert(part_views(parts@) =~= before.push(part));
    }
    parts
}

/// `parts` with `separator` between each two of them.
pub fn join_parts(parts: &Vec<Vec<char>>, separator: char) -> (joined: Vec<char>)
    ensures
        joined@ == join(part_views(parts@), separator),
{
    let mut joined: Vec<char> = Vec::new();
    let mut i: usize = 0;
    let ghost all = part_views(parts@);
    proof {
        assert(all.take(0) =~= Seq::<Seq<char>>::empty());
    }
    while i < parts.len()
        invariant
            i <= parts.len(),
            all == part_views(parts@),
            joined@ == join(all.take(i as int), separator),
        decreases parts.len() - i,
    {
        proof {
            assert(all.take(i + 1).drop_last() =~= all.take(i as int));
            assert(all.take(i + 1).last() == parts@[i as int]@);
        }
        if i > 0 {
            joined.push(separator);
        }
        let part = &parts[i];
        let ghost head = joined@;
        let mut k: usize = 0;
        while k < part.len()
            invariant
                k <= part.len(),
                joined@ == head + part@.take(k as int),
            decreases part.len() - k,
        {
            joined.push(part[k]);
            k += 1;
            proof {
                assert(joined@ =~= head + part@.take(k as int));
            }
        }
        proof {
            assert(part@.take(part.len() as int) =~= part@);
            if i == 0 {
                assert(head =~= Seq::<char>::empty());
                assert(joined@ =~= part@);
                assert(all.take(1)[0] == part@);
            }
        }
        i += 1;
    }
    proof {
        assert(all.take(parts.len() as int) =~= all);
    }
    joined
}

} // verus!
