//! Key combinations: comparing names of keys without regard to case, and
//! composing the name of a combination from its modifiers and its key.

use crate::chars::{occurs_at, same_text, slice, to_chars};
use crate::keys::{canonical_modifier, get_canonical_modifier};
use crate::sorting::{join, join_parts, part_views, sort, sort_parts};
use crate::tokens::texts;
use vstd::prelude::*;

verus! {

/// The code point of `c`, or of its lower-case form if it is one of the
/// letters `A` to `Z`.
pub open spec fn ascii_lower(c: char) -> u32 {
    if 'A' <= c && c <= 'Z' {
        ((c as u32) + 32) as u32
    } else {
        c as u32
    }
}

/// Whether `a` and `b` are equal but for the case of the letters `A` to `Z`.
pub open spec fn same_ignoring_case(a: Seq<char>, b: Seq<char>) -> bool {
    a.len() == b.len() && forall|i: int|
        0 <= i < a.len() ==> ascii_lower(#[trigger] a[i]) == ascii_lower(b[i])
}

/// The code point of `c`, or of its lower-case form if it is one of the
/// letters `A` to `Z`.
pub fn to_ascii_lower(c: char) -> (l: u32)
    ensures
        l == ascii_lower(c),
{
    let n: u32 = c as u32;
    if 65 <= n && n <= 90 {
        n + 32
    } else {
        n
    }
}

/// Whether `a` and `b` are equal but for the case of the letters `A` to `Z`.
pub fn eq_ignore_ascii_case(a: &Vec<char>, b: &Vec<char>) -> (same: bool)
    ensures
        same == same_ignoring_case(a@, b@),
{
    if a.len() != b.len() {
        return false;
    }
    let mut i: usize = 0;
    while i < a.len()
        invariant
            i <= a.len(),
            a.len() == b.len(),
            forall|k: int| 0 <= k < i ==> ascii_lower(#[trigger] a@[k]) == ascii_lower(b@[k]),
        decreases a.len() - i,
    {
        if to_ascii_lower(a[i]) != to_ascii_lower(b[i]) {
            return false;
        }
        i += 1;
    }
    true
}

/// `s` without the occurrences of `prefix` at its beginning, one after the
/// other.
pub open spec fn strip_prefixes(s: Seq<char>, prefix: Seq<char>) -> Seq<char>
    decreases s.len(),
{
    if prefix.len() > 0 && occurs_at(s, prefix, 0) {
        strip_prefixes(s.skip(prefix.len() as int), prefix)
    } else {
        s
    }
}

/// `parts` without each part that equals the part before it.
pub open spec fn dedup(parts: Seq<Seq<char>>) -> Seq<Seq<char>>
    decreases parts.len(),
{
    if parts.len() == 0 {
        Seq::empty()
    } else {
        let head = dedup(parts.drop_last());
        if parts.len() >= 2 && parts[parts.len() - 2] == parts.last() {
            head
        } else {
            head.push(parts.last())
        }
    }
}

/// The modifiers that the key tokens `tokens` stand for, in their order; a
/// token that stands for none is passed over.
pub open spec fn modifiers_of(tokens: Seq<Seq<char>>) -> Seq<Seq<char>>
    decreases tokens.len(),
{
    if tokens.len() == 0 {
        Seq::empty()
    } else {
        let head = modifiers_of(tokens.drop_last());
        if canonical_modifier(tokens.last()).len() == 0 {
            head
        } else {
            head.push(canonical_modifier(tokens.last()))
        }
    }
}

/// The name of the key of a combination for the key token `token`: `Enter`
/// and `Space` for the tokens of those keys, and any other token without the
/// `shift+` before it.
pub open spec fn combo_key(token: Seq<char>) -> Seq<char> {
    if token == "[Enter]"@ {
        "Enter"@
    } else if token == "[Space]"@ {
        "Space"@
    } else {
        strip_prefixes(token, "shift+"@)
    }
}

/// The name of the combination of the modifier tokens `held` with the key
/// token `token`: the modifiers in order, each once, and the key, joined by
/// `+`.
pub open spec fn combo_name(held: Seq<Seq<char>>, token: Seq<char>) -> Seq<char> {
    join(dedup(sort(modifiers_of(held))).push(combo_key(token)), '+')
}

/// Whether `pattern` stands in `v` at the index `i`.
fn prefix_at(v: &Vec<char>, pattern: &Vec<char>, i: usize) -> (m: bool)
    requires
        i <= v.len(),
    ensures
        m == occurs_at(v@.skip(i as int), pattern@, 0),
{
    if pattern.len() > v.len() - i {
        return false;
    }
    let mut k: usize = 0;
    while k < pattern.len()
        invariant
            k <= pattern.len(),
            i + pattern.len() <= v.len(),
            forall|j: int| 0 <= j < k ==> v@[i + j] == pattern@[j],
        decreases pattern.len() - k,
    {
        if v[i + k] != pattern[k] {
            proof {
                assert(v@.skip(i as int).subrange(0, pattern.len() as int)[k as int] == v@[i + k]);
            }
            return false;
        }
        k += 1;
    }
    proof {
        assert(v@.skip(i as int).subrange(0, pattern.len() as int) =~= pattern@);
    }
    true
}

/// `v` without the occurrences of `prefix` at its beginning.
pub fn strip_prefixes_of(v: &Vec<char>, prefix: &Vec<char>) -> (r: Vec<char>)
    ensures
        r@ == strip_prefixes(v@, prefix@),
{
    let mut i: usize = 0;
    proof {
        assert(v@.skip(0) =~= v@);
    }
    if prefix.len() > 0 {
        while prefix_at(v, prefix, i)
            invariant
                i <= v.len(),
                prefix.len() > 0,
                strip_prefixes(v@, prefix@) == strip_prefixes(v@.skip(i as int), prefix@),
            decreases v.len() - i,
        {
            proof {
                assert(v@.skip(i as int).skip(prefix.len() as int) =~= v@.skip(i + prefix.len()));
            }
            i += prefix.len();
        }
    }
    let r = slice(v, i, v.len());
    proof {
        assert(r@ =~= v@.skip(i as int));
    }
    r
}

/// `parts` without each part that equals the part before it.
pub fn dedup_parts(parts: &Vec<Vec<char>>) -> (r: Vec<Vec<char>>)
    ensures
        part_views(r@) == dedup(part_views(parts@)),
{
    let mut r: Vec<Vec<char>> = Vec::new();
    let mut i: usize = 0;
    let ghost all = part_views(parts@);
    proof {
        assert(all.take(0) =~= Seq::<Seq<char>>::empty());
        assert(part_views(r@) =~= Seq::<Seq<char>>::empty());
    }
    while i < parts.len()
        invariant
            i <= parts.len(),
            all == part_views(parts@),
            part_views(r@) == dedup(all.take(i as int)),
        decreases parts.len() - i,
    {
        proof {
            assert(all.take(i + 1).drop_last() =~= all.take(i as int));
            assert(all.take(i + 1).last() == parts@[i as int]@);
            if i > 0 {
                assert(all.take(i + 1)[i - 1] == parts@[i - 1]@);
            }
        }
        if !(i > 0 && same_chars(&parts[i - 1], &parts[i])) {
            let ghost before = part_views(r@);
            let copy = slice(&parts[i], 0, parts[i].len());
            proof {
                assert(copy@ =~= parts@[i as int]@);
            }
            r.push(copy);
            proof {
                assert(part_views(r@) =~= before.push(copy@));
            }
        }
        i += 1;
    }
    proof {
        assert(all.take(parts.len() as int) =~= all);
    }
    r
}

/// Whether `a` and `b` hold the same characters.
pub fn same_chars(a: &Vec<char>, b: &Vec<char>) -> (same: bool)
    ensures
        same == (a@ == b@),
{
    if a.len() != b.len() {
        return false;
    }
    let mut i: usize = 0;
    while i < a.len()
        invariant
            i <= a.len(),
            a.len() == b.len(),
            forall|k: int| 0 <= k < i ==> a@[k] == b@[k],
        decreases a.len() - i,
    {
        if a[i] != b[i] {
            return false;
        }
        i += 1;
    }
    proof {
        assert(a@ =~= b@);
    }
    true
}

/// The name of the combination of the modifier tokens `held` with the key
/// token `token`.
pub fn combo_string(held: &Vec<String>, token: &str) -> (name: Vec<char>)
    ensures
        name@ == combo_name(texts(held@), token@),
{
    let mut modifiers: Vec<Vec<char>> = Vec::new();
    let mut i: usize = 0;
    let ghost tokens = texts(held@);
    proof {
        assert(tokens.take(0) =~= Seq::<Seq<char>>::empty());
        assert(part_views(modifiers@) =~= Seq::<Seq<char>>::empty());
    }
    while i < held.len()
        invariant
            i <= held.len(),
            tokens == texts(held@),
            part_views(modifiers@) == modifiers_of(tokens.take(i as int)),
        decreases held.len() - i,
    {
        proof {
            assert(tokens.take(i + 1).drop_last() =~= tokens.take(i as int));
            assert(tokens.take(i + 1).last() == held@[i as int]@);
        }
        let modifier = to_chars(get_canonical_modifier(held[i].as_str()));
        if modifier.len() > 0 {
            let ghost before = part_views(modifiers@);
            modifiers.push(modifier);
            proof {
                assert(part_views(modifiers@) =~= before.push(modifier@));
            }
        }
        i += 1;
    }
    proof {
        assert(tokens.take(held.len() as int) =~= tokens);
    }
    let mut parts = dedup_parts(&sort_parts(modifiers));
    let key = if same_text(token, "[Enter]") {
        to_chars("Enter")
    } else if same_text(token, "[Space]") {
        to_chars("Space")
    } else {
        strip_prefixes_of(&to_chars(token), &to_chars("shift+"))
    };
    let ghost before = part_views(parts@);
    parts.push(key);
    proof {
        assert(part_views(parts@) =~= before.push(key@));
    }
    join_parts(&parts, '+')
}

} // verus!
