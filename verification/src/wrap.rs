//! The line wrap engine: styled ranges of one source line become wrapped
//! visual lines that fit a maximum width.

use crate::chars::{prefix_string, strip_trailing, stripped_len, to_chars};
use crate::metrics::{measure_text_width, measured_width, FontMetrics};
use crate::style::{line_views, token_views, Rgb, StyledToken, TokenModel};
use crate::tokens::{split_segment_into_tokens, texts, tokens_of};
use vstd::prelude::*;

verus! {

/// A range's text without the line feeds at its end and, after that, without
/// the carriage returns at its end.
pub open spec fn clean_segment(s: Seq<char>) -> Seq<char> {
    strip_trailing(strip_trailing(s, '\n'), '\r')
}

/// The pieces `pieces`, each in the colour `color`.
pub open spec fn colored(pieces: Seq<Seq<char>>, color: Rgb) -> Seq<TokenModel> {
    pieces.map_values(|text: Seq<char>| TokenModel { color, text })
}

/// The tokens of a sequence of ranges, in order: each range's cleaned text
/// split into its maximal runs of one class, which keep the range's colour.
pub open spec fn range_tokens(ranges: Seq<TokenModel>) -> Seq<TokenModel>
    decreases ranges.len(),
{
    if ranges.len() == 0 {
        Seq::empty()
    } else {
        range_tokens(ranges.drop_last()) + colored(
            tokens_of(clean_segment(ranges.last().text)),
            ranges.last().color,
        )
    }
}

/// The measured width of a token.
pub open spec fn token_width(m: FontMetrics, t: TokenModel) -> nat {
    measured_width(m, t.text)
}

/// The sum of the measured widths of the tokens of `line`.
pub open spec fn line_width(m: FontMetrics, line: Seq<TokenModel>) -> nat
    decreases line.len(),
{
    if line.len() == 0 {
        0
    } else {
        line_width(m, line.drop_last()) + token_width(m, line.last())
    }
}

/// The state of greedy wrapping: the lines that are closed, the line that is
/// being filled, and the width of that line.
pub struct WrapState {
    pub closed: Seq<Seq<TokenModel>>,
    pub current: Seq<TokenModel>,
    pub width: nat,
}

/// The state of greedy wrapping after `tokens`. A token that would take a line
/// that holds a token already beyond `max_width` closes that line and starts
/// the next; any other token joins the line being filled.
pub open spec fn wrap_state(m: FontMetrics, tokens: Seq<TokenModel>, max_width: nat) -> WrapState
    decreases tokens.len(),
{
    if tokens.len() == 0 {
        WrapState { closed: Seq::empty(), current: Seq::empty(), width: 0 }
    } else {
        let before = wrap_state(m, tokens.drop_last(), max_width);
        let t = tokens.last();
        if before.width + token_width(m, t) > max_width && before.current.len() > 0 {
            WrapState {
                closed: before.closed.push(before.current),
                current: seq![t],
                width: token_width(m, t),
            }
        } else {
            WrapState {
                closed: before.closed,
                current: before.current.push(t),
                width: before.width + token_width(m, t),
            }
        }
    }
}

/// The wrapped lines of `tokens`: the closed lines and, if it holds a token,
/// the line being filled; one empty line where there is no token at all.
pub open spec fn wrap_tokens(m: FontMetrics, tokens: Seq<TokenModel>, max_width: nat) -> Seq<
    Seq<TokenModel>,
> {
    let state = wrap_state(m, tokens, max_width);
    let lines = if state.current.len() > 0 {
        state.closed.push(state.current)
    } else {
        state.closed
    };
    if lines.len() == 0 {
        seq![Seq::empty()]
    } else {
        lines
    }
}

/// The wrapped lines of one source line, given as its styled ranges.
pub open spec fn wrap_ranges(m: FontMetrics, ranges: Seq<TokenModel>, max_width: nat) -> Seq<
    Seq<TokenModel>,
> {
    wrap_tokens(m, range_tokens(ranges), max_width)
}

/// The tokens of all lines of `lines`, in order.
pub open spec fn flatten_lines(lines: Seq<Seq<TokenModel>>) -> Seq<TokenModel>
    decreases lines.len(),
{
    if lines.len() == 0 {
        Seq::empty()
    } else {
        flatten_lines(lines.drop_last()) + lines.last()
    }
}

/// Whether `line` keeps to `max_width`: its width is at most `max_width`, or
/// it holds a single token.
pub open spec fn line_fits(m: FontMetrics, line: Seq<TokenModel>, max_width: nat) -> bool {
    line_width(m, line) <= max_width || line.len() == 1
}

/// What holds of the wrapping state after any tokens: no token is lost, split
/// or moved, no closed line and no filled line is empty, the recorded width is
/// the width of the line being filled, and every line keeps to `max_width`.
pub proof fn lemma_wrap_state(m: FontMetrics, tokens: Seq<TokenModel>, max_width: nat)
    ensures
        ({
            let st = wrap_state(m, tokens, max_width);
            &&& flatten_lines(st.closed) + st.current == tokens
            &&& st.width == line_width(m, st.current)
            &&& (tokens.len() > 0 ==> st.current.len() > 0)
            &&& (tokens.len() == 0 ==> st.closed.len() == 0)
            &&& forall|i: int|
                0 <= i < st.closed.len() ==> (#[trigger] st.closed[i]).len() > 0 && line_fits(
                    m,
                    st.closed[i],
                    max_width,
                )
            &&& line_fits(m, st.current, max_width)
        }),
    decreases tokens.len(),
{
    if tokens.len() > 0 {
        let before = wrap_state(m, tokens.drop_last(), max_width);
        let st = wrap_state(m, tokens, max_width);
        let t = tokens.last();
        lemma_wrap_state(m, tokens.drop_last(), max_width);
        assert(tokens =~= tokens.drop_last().push(t));
        if before.width + token_width(m, t) > max_width && before.current.len() > 0 {
            assert(st.closed.drop_last() =~= before.closed);
            assert(flatten_lines(st.closed) == flatten_lines(before.closed) + before.current);
            assert(flatten_lines(st.closed) + st.current =~= tokens);
            assert(st.current.drop_last() =~= Seq::<TokenModel>::empty());
            assert(line_width(m, st.current.drop_last()) == 0);
            assert forall|i: int| 0 <= i < st.closed.len() implies (#[trigger] st.closed[i]).len()
                > 0 && line_fits(m, st.closed[i], max_width) by {
                if i < before.closed.len() {
                    assert(st.closed[i] == before.closed[i]);
                }
            }
        } else {
            assert(st.current.drop_last() =~= before.current);
            assert(flatten_lines(st.closed) + st.current =~= tokens);
            if before.current.len() == 0 {
                assert(before.current =~= Seq::<TokenModel>::empty());
                assert(st.current.len() == 1);
            }
        }
    } else {
        assert(flatten_lines(Seq::<Seq<TokenModel>>::empty()) + Seq::<TokenModel>::empty()
            =~= tokens);
    }
}

/// Wrapping keeps every token, whole and in order: the lines of
/// `wrap_tokens`, joined, are `tokens`. There is always at least one line, and
/// a line is empty only where there is no token at all.
pub proof fn lemma_wrap_keeps_tokens(m: FontMetrics, tokens: Seq<TokenModel>, max_width: nat)
    ensures
        flatten_lines(wrap_tokens(m, tokens, max_width)) == tokens,
        wrap_tokens(m, tokens, max_width).len() >= 1,
        tokens.len() == 0 ==> wrap_tokens(m, tokens, max_width) == seq![Seq::<TokenModel>::empty()],
        tokens.len() > 0 ==> forall|i: int|
            0 <= i < wrap_tokens(m, tokens, max_width).len() ==> (#[trigger] wrap_tokens(
                m,
                tokens,
                max_width,
            )[i]).len() > 0,
{
    lemma_wrap_state(m, tokens, max_width);
    let st = wrap_state(m, tokens, max_width);
    let lines = wrap_tokens(m, tokens, max_width);
    if tokens.len() > 0 {
        assert(lines == st.closed.push(st.current));
        assert(lines.drop_last() =~= st.closed);
        assert forall|i: int| 0 <= i < lines.len() implies (#[trigger] lines[i]).len() > 0 by {
            if i < st.closed.len() {
                assert(lines[i] == st.closed[i]);
            }
        }
    } else {
        assert(lines =~= seq![Seq::<TokenModel>::empty()]);
        assert(lines.drop_last() =~= Seq::<Seq<TokenModel>>::empty());
        assert(flatten_lines(lines.drop_last()) =~= Seq::<TokenModel>::empty());
        assert(flatten_lines(lines) =~= tokens);
    }
}

/// Every wrapped line is at most `max_width` wide, unless it consists of a
/// single token that alone is wider than `max_width`.
pub proof fn lemma_wrapped_lines_fit(m: FontMetrics, tokens: Seq<TokenModel>, max_width: nat)
    ensures
        forall|i: int|
            0 <= i < wrap_tokens(m, tokens, max_width).len() ==> {
                let line = #[trigger] wrap_tokens(m, tokens, max_width)[i];
                line_width(m, line) <= max_width || (line.len() == 1 && token_width(m, line[0])
                    > max_width)
            },
{
    lemma_wrap_state(m, tokens, max_width);
    let st = wrap_state(m, tokens, max_width);
    let lines = wrap_tokens(m, tokens, max_width);
    assert forall|i: int| 0 <= i < lines.len() implies {
        let line = #[trigger] lines[i];
        line_width(m, line) <= max_width || (line.len() == 1 && token_width(m, line[0])
            > max_width)
    } by {
        let line = lines[i];
        if tokens.len() > 0 {
            if i < st.closed.len() {
                assert(lines[i] == st.closed[i]);
            }
            assert(line_fits(m, line, max_width));
            if line.len() == 1 {
                assert(line.drop_last() =~= Seq::<TokenModel>::empty());
                assert(line_width(m, line.drop_last()) == 0);
                assert(line.last() == line[0]);
                assert(line_width(m, line) == token_width(m, line[0]));
            }
        } else {
            assert(line =~= Seq::<TokenModel>::empty());
        }
    }
}

/// A line is at least as wide as each of its tokens.
pub proof fn lemma_line_holds_its_tokens(m: FontMetrics, line: Seq<TokenModel>, j: int)
    requires
        0 <= j < line.len(),
    ensures
        token_width(m, line[j]) <= line_width(m, line),
    decreases line.len(),
{
    if j < line.len() - 1 {
        lemma_line_holds_its_tokens(m, line.drop_last(), j);
    }
}

/// A token that alone is wider than `max_width` is never split and has a
/// line of its own: the wrapped line that holds it holds no other token.
pub proof fn lemma_oversize_token_is_alone(
    m: FontMetrics,
    tokens: Seq<TokenModel>,
    max_width: nat,
    i: int,
    j: int,
)
    requires
        0 <= i < wrap_tokens(m, tokens, max_width).len(),
        0 <= j < wrap_tokens(m, tokens, max_width)[i].len(),
        token_width(m, wrap_tokens(m, tokens, max_width)[i][j]) > max_width,
    ensures
        wrap_tokens(m, tokens, max_width)[i].len() == 1,
        flatten_lines(wrap_tokens(m, tokens, max_width)) == tokens,
{
    lemma_wrapped_lines_fit(m, tokens, max_width);
    lemma_wrap_keeps_tokens(m, tokens, max_width);
    lemma_line_holds_its_tokens(m, wrap_tokens(m, tokens, max_width)[i], j);
}

/// The tokens of the ranges of one source line, in order.
pub fn tokenize_ranges(ranges: &Vec<StyledToken>) -> (tokens: Vec<StyledToken>)
    ensures
        token_views(tokens@) == range_tokens(token_views(ranges@)),
{
    let mut tokens: Vec<StyledToken> = Vec::new();
    let mut i: usize = 0;
    proof {
        assert(token_views(ranges@).take(0) =~= Seq::<TokenModel>::empty());
        assert(token_views(tokens@) =~= Seq::<TokenModel>::empty());
    }
    while i < ranges.len()
        invariant
            i <= ranges.len(),
            token_views(tokens@) == range_tokens(token_views(ranges@).take(i as int)),
        decreases ranges.len() - i,
    {
        let range = &ranges[i];
        let chars = to_chars(range.text.as_str());
        let n1 = stripped_len(&chars, chars.len(), '\n');
        let n2 = stripped_len(&chars, n1, '\r');
        let clean = prefix_string(&chars, n2);
        let pieces = split_segment_into_tokens(clean.as_str());
        proof {
            assert(chars@.take(chars.len() as int) =~= chars@);
            assert(clean@ == clean_segment(range@.text));
            assert(token_views(ranges@).take(i + 1).drop_last() =~= token_views(ranges@).take(
                i as int,
            ));
            assert(token_views(ranges@).take(i + 1).last() == range@);
        }
        let ghost start = token_views(tokens@);
        let mut j: usize = 0;
        while j < pieces.len()
            invariant
                j <= pieces.len(),
                token_views(tokens@) == start + colored(texts(pieces@).take(j as int), range.color),
            decreases pieces.len() - j,
        {
            let ghost before = token_views(tokens@);
            let piece = StyledToken::new(range.color, pieces[j].clone());
            tokens.push(piece);
            proof {
                assert(token_views(tokens@) =~= before.push(piece@));
                assert(colored(texts(pieces@).take(j + 1), range.color) =~= colored(
                    texts(pieces@).take(j as int),
                    range.color,
                ).push(piece@));
            }
            j += 1;
        }
        proof {
            assert(texts(pieces@).take(pieces.len() as int) =~= texts(pieces@));
        }
        i += 1;
    }
    proof {
        assert(token_views(ranges@).take(ranges.len() as int) =~= token_views(ranges@));
    }
    tokens
}

/// Wraps `tokens` greedily into lines of at most `max_width`.
pub fn wrap_tokens_greedy(tokens: &Vec<StyledToken>, m: &FontMetrics, max_width: u64) -> (lines:
    Vec<Vec<StyledToken>>)
    ensures
        line_views(lines@) == wrap_tokens(*m, token_views(tokens@), max_width as nat),
{
    let mut lines: Vec<Vec<StyledToken>> = Vec::new();
    let mut current: Vec<StyledToken> = Vec::new();
    let mut width: u64 = 0;
    let mut i: usize = 0;
    proof {
        assert(token_views(tokens@).take(0) =~= Seq::<TokenModel>::empty());
        assert(line_views(lines@) =~= Seq::<Seq<TokenModel>>::empty());
        assert(token_views(current@) =~= Seq::<TokenModel>::empty());
    }
    while i < tokens.len()
        invariant
            i <= tokens.len(),
            line_views(lines@) == wrap_state(
                *m,
                token_views(tokens@).take(i as int),
                max_width as nat,
            ).closed,
            token_views(current@) == wrap_state(
                *m,
                token_views(tokens@).take(i as int),
                max_width as nat,
            ).current,
            width == wrap_state(*m, token_views(tokens@).take(i as int), max_width as nat).width,
        decreases tokens.len() - i,
    {
        let token = tokens[i].duplicate();
        let w = measure_text_width(m, token.text.as_str());
        proof {
            assert(token_views(tokens@).take(i + 1).drop_last() =~= token_views(tokens@).take(
                i as int,
            ));
            assert(token_views(tokens@).take(i + 1).last() == token@);
        }
        if current.len() > 0 && (w > max_width || width > max_width - w) {
            let ghost before = line_views(lines@);
            let ghost line = token_views(current@);
            lines.push(current);
            proof {
                assert(line_views(lines@) =~= before.push(line));
            }
            current = Vec::new();
            current.push(token);
            proof {
                assert(token_views(current@) =~= seq![token@]);
            }
            width = w;
        } else {
            let ghost before = token_views(current@);
            current.push(token);
            proof {
                assert(token_views(current@) =~= before.push(token@));
            }
            width = width + w;
        }
        i += 1;
    }
    proof {
        assert(token_views(tokens@).take(tokens.len() as int) =~= token_views(tokens@));
    }
    if current.len() > 0 {
        let ghost before = line_views(lines@);
        let ghost line = token_views(current@);
        lines.push(current);
        proof {
            assert(line_views(lines@) =~= before.push(line));
        }
    }
    if lines.len() == 0 {
        let empty: Vec<StyledToken> = Vec::new();
        proof {
            assert(token_views(empty@) =~= Seq::<TokenModel>::empty());
        }
        lines.push(empty);
        proof {
            assert(line_views(lines@) =~= seq![Seq::<TokenModel>::empty()]);
        }
    }
    lines
}

/// Wraps one source line, given as its styled ranges, into visual lines of
/// at most `max_width`. Tokens are never split; an empty source line gives one
/// empty visual line.
pub fn wrap_line_with_syntax(ranges: &Vec<StyledToken>, m: &FontMetrics, max_width: u64) -> (lines:
    Vec<Vec<StyledToken>>)
    ensures
        line_views(lines@) == wrap_ranges(*m, token_views(ranges@), max_width as nat),
        lines.len() >= 1,
{
    let tokens = tokenize_ranges(ranges);
    let lines = wrap_tokens_greedy(&tokens, m, max_width);
    proof {
        lemma_wrap_keeps_tokens(*m, token_views(tokens@), max_width as nat);
    }
    lines
}

} // verus!
