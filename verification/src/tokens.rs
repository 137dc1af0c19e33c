//! Splitting a text segment into maximal runs of whitespace and of
//! non-whitespace characters.

use crate::chars::{char_is_whitespace, is_whitespace};
use vstd::prelude::*;

verus! {

/// The views of a sequence of strings.
pub open spec fn texts(v: Seq<String>) -> Seq<Seq<char>> {
    v.map_values(|s: String| s@)
}

/// The tokens of `s`: its maximal runs of characters of one class, in order.
///
/// Reading `s` from left to right, a character of the same class as the one
/// before it extends the last token, and any other character starts a new one.
pub open spec fn tokens_of(s: Seq<char>) -> Seq<Seq<char>>
    decreases s.len(),
{
    if s.len() == 0 {
        Seq::empty()
    } else {
        let before = s.drop_last();
        let t = tokens_of(before);
        if before.len() > 0 && is_whitespace(before.last()) == is_whitespace(s.last()) {
            t.drop_last().push(t.last().push(s.last()))
        } else {
            t.push(seq![s.last()])
        }
    }
}

/// The concatenation of the sequences in `parts`.
pub open spec fn concat(parts: Seq<Seq<char>>) -> Seq<char>
    decreases parts.len(),
{
    if parts.len() == 0 {
        Seq::empty()
    } else {
        concat(parts.drop_last()) + parts.last()
    }
}

/// Whether all characters of `t` are whitespace (`ws`) or all are not (`!ws`).
pub open spec fn uniform(t: Seq<char>, ws: bool) -> bool {
    forall|i: int| 0 <= i < t.len() ==> is_whitespace(#[trigger] t[i]) == ws
}

/// Tokenizing loses nothing and reorders nothing: the tokens of `s`, joined,
/// are `s`. No token is empty, every token is of one class, the last token ends
/// with the last character of `s`, and neighbouring tokens are of different
/// classes, so no token could be longer.
pub proof fn lemma_tokens_partition(s: Seq<char>)
    ensures
        concat(tokens_of(s)) == s,
        s.len() > 0 ==> tokens_of(s).len() > 0,
        tokens_of(s).len() <= s.len(),
        forall|k: int|
            0 <= k < tokens_of(s).len() ==> (#[trigger] tokens_of(s)[k]).len() > 0 && uniform(
                tokens_of(s)[k],
                is_whitespace(tokens_of(s)[k][0]),
            ),
        s.len() > 0 ==> tokens_of(s).last().last() == s.last(),
        forall|k: int|
            0 <= k < tokens_of(s).len() - 1 ==> is_whitespace((#[trigger] tokens_of(s)[k])[0])
                != is_whitespace(tokens_of(s)[k + 1][0]),
    decreases s.len(),
{
    if s.len() > 0 {
        let before = s.drop_last();
        let c = s.last();
        let t = tokens_of(before);
        lemma_tokens_partition(before);
        assert(s =~= before.push(c));
        if before.len() > 0 && is_whitespace(before.last()) == is_whitespace(c) {
            let last = t.last().push(c);
            let r = t.drop_last().push(last);
            assert(r.drop_last() =~= t.drop_last());
            assert(concat(t) == concat(t.drop_last()) + t.last());
            assert(concat(r) =~= concat(t) + seq![c]);
            assert(uniform(t.last(), is_whitespace(t.last()[0])));
            assert(is_whitespace(t.last()[t.last().len() - 1]) == is_whitespace(c));
            assert forall|k: int| 0 <= k < r.len() implies (#[trigger] r[k]).len() > 0 && uniform(
                r[k],
                is_whitespace(r[k][0]),
            ) by {
                if k < r.len() - 1 {
                    assert(r[k] == t[k]);
                }
            }
            assert forall|k: int| 0 <= k < r.len() - 1 implies is_whitespace((#[trigger] r[k])[0])
                != is_whitespace(r[k + 1][0]) by {
                assert(r[k] == t[k]);
                if k + 1 < r.len() - 1 {
                    assert(r[k + 1] == t[k + 1]);
                }
            }
        } else {
            let r = t.push(seq![c]);
            assert(r.drop_last() =~= t);
            assert(concat(r) =~= concat(t) + seq![c]);
            assert forall|k: int| 0 <= k < r.len() implies (#[trigger] r[k]).len() > 0 && uniform(
                r[k],
                is_whitespace(r[k][0]),
            ) by {
                if k < r.len() - 1 {
                    assert(r[k] == t[k]);
                }
            }
            assert forall|k: int| 0 <= k < r.len() - 1 implies is_whitespace((#[trigger] r[k])[0])
                != is_whitespace(r[k + 1][0]) by {
                assert(r[k] == t[k]);
                if k + 1 < r.len() - 1 {
                    assert(r[k + 1] == t[k + 1]);
                } else {
                    assert(uniform(t.last(), is_whitespace(t.last()[0])));
                    assert(is_whitespace(t.last()[t.last().len() - 1]) == is_whitespace(
                        before.last(),
                    ));
                }
            }
        }
    }
}

/// Splits `s` into its maximal runs of whitespace and of non-whitespace
/// characters, in order. `"  fn main() "` gives `"  "`, `"fn"`, `" "`,
/// `"main()"`, `" "`.
pub fn split_segment_into_tokens(s: &str) -> (tokens: Vec<String>)
    ensures
        texts(tokens@) == tokens_of(s@),
{
    let mut tokens: Vec<String> = Vec::new();
    let mut current = String::new();
    let mut in_whitespace = false;
    for c in it: s.chars()
        invariant
            it.seq() == s@,
            current@.len() == 0 ==> it.index() == 0 && tokens@.len() == 0,
            current@.len() > 0 ==> it.index() > 0 && in_whitespace == is_whitespace(
                s@[it.index() - 1],
            ) && tokens_of(s@.take(it.index())) == texts(tokens@).push(current@),
    {
        let ghost i = it.index();
        let ghost before = s@.take(i);
        proof {
            assert(s@.take(i + 1).drop_last() =~= before);
            assert(s@.take(i + 1).last() == c);
            if i > 0 {
                assert(before.last() == s@[i - 1]);
            }
        }
        let ws = char_is_whitespace(c);
        if current.as_str().is_empty() {
            proof {
                assert(before.len() == 0);
                assert(tokens_of(before) =~= Seq::<Seq<char>>::empty());
                assert(texts(tokens@) =~= Seq::<Seq<char>>::empty());
                assert(tokens_of(s@.take(i + 1)) =~= texts(tokens@).push(seq![c]));
            }
            current.push(c);
            proof {
                assert(current@ =~= seq![c]);
            }
        } else if ws == in_whitespace {
            proof {
                let t = texts(tokens@).push(current@);
                assert(t.drop_last() =~= texts(tokens@));
                assert(tokens_of(s@.take(i + 1)) =~= texts(tokens@).push(current@.push(c)));
            }
            current.push(c);
        } else {
            let ghost old_tokens = tokens@;
            tokens.push(current);
            proof {
                assert(texts(tokens@) =~= texts(old_tokens).push(current@));
                assert(tokens_of(s@.take(i + 1)) =~= texts(tokens@).push(seq![c]));
            }
            current = String::new();
            current.push(c);
            proof {
                assert(current@ =~= seq![c]);
            }
        }
        in_whitespace = ws;
    }
    proof {
        assert(s@.take(s@.len() as int) =~= s@);
    }
    if !current.as_str().is_empty() {
        let ghost old_tokens = tokens@;
        tokens.push(current);
        proof {
            assert(texts(tokens@) =~= texts(old_tokens).push(current@));
        }
    } else {
        proof {
            assert(texts(tokens@) =~= Seq::<Seq<char>>::empty());
        }
    }
    tokens
}

} // verus!
