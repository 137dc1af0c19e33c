//! The syntax highlighter adapter: the lines of a block become styled ranges.

use crate::chars::from_chars;
use crate::style::{Rgb, StyledToken};
use crate::tokens::concat;
use syntect::easy::HighlightLines;
use syntect::highlighting::{Theme, ThemeSet};
use syntect::parsing::{SyntaxReference, SyntaxSet};
use vstd::prelude::*;
use vstd::string::StringExecFns;

verus! {

/// A set of grammars of `syntect`.
#[verifier::external_type_specification]
#[verifier::external_body]
pub struct ExSyntaxSet(SyntaxSet);

/// One grammar of a set of grammars of `syntect`.
#[verifier::external_type_specification]
#[verifier::external_body]
pub struct ExSyntaxReference(SyntaxReference);

/// A colour theme of `syntect`.
#[verifier::external_type_specification]
#[verifier::external_body]
pub struct ExTheme(Theme);

/// The state of `syntect` between the lines of one text.
#[verifier::external_type_specification]
#[verifier::external_body]
pub struct ExHighlightLines<'a>(HighlightLines<'a>);

/// The error type of `syntect`.
#[verifier::external_type_specification]
#[verifier::external_body]
pub struct ExSyntectError(syntect::Error);

/// `SyntaxSet::load_defaults_newlines` loads the grammars that `syntect`
/// ships, for lines that end in a line feed. Nothing is claimed of them.
pub assume_specification[ SyntaxSet::load_defaults_newlines ]() -> SyntaxSet;

/// `SyntaxSet::find_syntax_by_token` looks a grammar up by a file extension
/// or a name. Nothing is claimed of what it finds.
pub assume_specification<'a>[ SyntaxSet::find_syntax_by_token ](
    set: &'a SyntaxSet,
    s: &str,
) -> Option<&'a SyntaxReference>;

/// `SyntaxSet::find_syntax_by_name` looks a grammar up by its name. Nothing is
/// claimed of what it finds.
pub assume_specification<'a>[ SyntaxSet::find_syntax_by_name ](
    set: &'a SyntaxSet,
    name: &str,
) -> Option<&'a SyntaxReference>;

/// `HighlightLines::new` starts highlighting a text with a grammar and a
/// theme. Nothing is claimed of the state it returns.
pub assume_specification<'a>[ HighlightLines::new ](
    syntax: &SyntaxReference,
    theme: &'a Theme,
) -> HighlightLines<'a>;

/// Whether `name` is the name of one of the themes that `syntect` ships.
pub open spec fn is_shipped_theme(name: Seq<char>) -> bool {
    ||| name == "base16-ocean.dark"@
    ||| name == "base16-eighties.dark"@
    ||| name == "base16-mocha.dark"@
    ||| name == "base16-ocean.light"@
    ||| name == "InspiredGitHub"@
    ||| name == "Solarized (dark)"@
    ||| name == "Solarized (light)"@
}

/// Loads the themes that `syntect` ships with `ThemeSet::load_defaults` and
/// hands out a copy of the one called `name`, if there is one. The
/// documentation of that function lists the names that the themes are kept
/// under, and there is a theme for those names only. Nothing is claimed of the
/// theme itself.
#[verifier::external_body]
fn load_theme(name: &str) -> (theme: Option<Theme>)
    ensures
        theme is Some <==> is_shipped_theme(name@),
{
    ThemeSet::load_defaults().themes.get(name).cloned()
}

/// Highlights one line with `HighlightLines::highlight_line` and hands out
/// its ranges in order, each as its foreground colour and its text. The
/// iterator behind that call yields consecutive, non-empty pieces of the line
/// from its start: so no range is empty, and the ranges, joined, are the
/// beginning of `line`.
#[verifier::external_body]
fn highlight_line(state: &mut HighlightLines, line: &str, set: &SyntaxSet) -> (ranges: Result<
    Vec<StyledToken>,
    syntect::Error,
>)
    ensures
        ranges matches Ok(v) ==> is_split_of_prefix(range_texts(v@), line@),
{
    state.highlight_line(line, set).map(|ranges| ranges.into_iter().map(|(style, text)| StyledToken {
        color: Rgb { r: style.foreground.r, g: style.foreground.g, b: style.foreground.b },
        text: text.to_string(),
    }).collect())
}

/// The texts of a sequence of ranges.
pub open spec fn range_texts(v: Seq<StyledToken>) -> Seq<Seq<char>> {
    v.map_values(|t: StyledToken| t.text@)
}

/// Whether `pieces` are non-empty and, joined, are the beginning of `line`.
pub open spec fn is_split_of_prefix(pieces: Seq<Seq<char>>, line: Seq<char>) -> bool {
    &&& forall|i: int| 0 <= i < pieces.len() ==> (#[trigger] pieces[i]).len() > 0
    &&& concat(pieces).len() <= line.len()
    &&& concat(pieces) == line.take(concat(pieces).len() as int)
}

/// Why a block could not be highlighted.
#[derive(Debug, Clone, Copy, PartialEq, Eq, Structural)]
pub enum HighlightError {
    /// The grammars hold no grammar for plain text to fall back to.
    NoPlainText,
    /// The highlighter failed on a line.
    Failed,
}

/// The name of the theme that code is coloured with.
pub const THEME_NAME: &'static str = "base16-ocean.dark";

/// The name of the grammar for plain text.
pub const PLAIN_TEXT: &'static str = "Plain Text";

/// The grammars and the theme that blocks are highlighted with.
pub struct Highlighter {
    set: SyntaxSet,
    theme: Theme,
}

/// `pieces` as one piece: their texts joined, where there is a piece at all.
pub open spec fn joined(pieces: Seq<Seq<char>>) -> Seq<Seq<char>> {
    if pieces.len() == 0 {
        Seq::empty()
    } else {
        seq![concat(pieces)]
    }
}

/// Pieces that split the beginning of a line still do so when they are joined
/// into one.
pub proof fn lemma_joined_split(pieces: Seq<Seq<char>>, line: Seq<char>)
    requires
        is_split_of_prefix(pieces, line),
    ensures
        is_split_of_prefix(joined(pieces), line),
{
    if pieces.len() > 0 {
        let one = joined(pieces);
        assert(pieces[pieces.len() - 1].len() > 0);
        assert(concat(pieces) == concat(pieces.drop_last()) + pieces.last());
        assert(one.drop_last() =~= Seq::<Seq<char>>::empty());
        assert(concat(one.drop_last()) =~= Seq::<char>::empty());
        assert(concat(one) =~= concat(pieces));
    }
}

/// The ranges `ranges` as a single run in the colour of the first of them, as
/// prose is shown; no run where there is no range.
pub fn join_ranges(ranges: &Vec<StyledToken>) -> (run: Vec<StyledToken>)
    ensures
        range_texts(run@) == joined(range_texts(ranges@)),
        run.len() <= 1,
        run.len() == 1 ==> run[0].color == ranges[0].color,
{
    let mut run: Vec<StyledToken> = Vec::new();
    if ranges.len() == 0 {
        proof {
            assert(range_texts(run@) =~= joined(range_texts(ranges@)));
        }
        return run;
    }
    let ghost pieces = range_texts(ranges@);
    let mut text = String::new();
    let mut i: usize = 0;
    proof {
        assert(pieces.take(0) =~= Seq::<Seq<char>>::empty());
    }
    while i < ranges.len()
        invariant
            i <= ranges.len(),
            pieces == range_texts(ranges@),
            text@ == concat(pieces.take(i as int)),
        decreases ranges.len() - i,
    {
        proof {
            assert(pieces.take(i + 1).drop_last() =~= pieces.take(i as int));
            assert(pieces.take(i + 1).last() == ranges@[i as int].text@);
        }
        text.append(ranges[i].text.as_str());
        i += 1;
    }
    proof {
        assert(pieces.take(ranges.len() as int) =~= pieces);
    }
    let one = StyledToken { color: ranges[0].color, text };
    run.push(one);
    proof {
        assert(range_texts(run@) =~= seq![one.text@]);
    }
    run
}

/// The grammar to highlight with: the one that the language tag names, or
/// the grammar for plain text where the tag names none; without either, there
/// is nothing to highlight with.
pub fn choose_grammar<'a>(
    by_tag: Option<&'a SyntaxReference>,
    plain_text: Option<&'a SyntaxReference>,
) -> (grammar: Result<&'a SyntaxReference, HighlightError>)
    ensures
        grammar == match (by_tag, plain_text) {
            (Some(g), _) => Ok::<&SyntaxReference, HighlightError>(g),
            (None, Some(g)) => Ok(g),
            (None, None) => Err(HighlightError::NoPlainText),
        },
{
    match by_tag {
        Some(g) => Ok(g),
        None => match plain_text {
            Some(g) => Ok(g),
            None => Err(HighlightError::NoPlainText),
        },
    }
}

/// The ranges of a line as the library hands them on: those that the
/// highlighter gave, or the failure in the library's own terms.
pub fn line_ranges(highlighted: Result<Vec<StyledToken>, syntect::Error>) -> (ranges: Result<
    Vec<StyledToken>,
    HighlightError,
>)
    ensures
        ranges == match highlighted {
            Ok(v) => Ok::<Vec<StyledToken>, HighlightError>(v),
            Err(_) => Err(HighlightError::Failed),
        },
{
    match highlighted {
        Ok(v) => Ok(v),
        Err(_) => Err(HighlightError::Failed),
    }
}

impl Highlighter {
    /// A highlighter of the grammars `set` and the theme `theme`, where there
    /// is a theme.
    fn with_theme(set: SyntaxSet, theme: Option<Theme>) -> (highlighter: Option<Highlighter>)
        ensures
            highlighter is Some <==> theme is Some,
            highlighter matches Some(h) ==> h.set == set && theme == Some(h.theme),
    {
        match theme {
            Some(theme) => Some(Highlighter { set, theme }),
            None => None,
        }
    }

    /// The default grammars and the theme `THEME_NAME`. That theme is among
    /// the themes that are shipped, so there is always a highlighter.
    pub fn load_defaults() -> (highlighter: Option<Highlighter>)
        ensures
            highlighter is Some,
    {
        let set = SyntaxSet::load_defaults_newlines();
        Highlighter::with_theme(set, load_theme(THEME_NAME))
    }

    /// The styled ranges of each of `lines`, which are the lines of one block
    /// in the language `language`, in order. Each line is highlighted with a
    /// line feed at its end, in the grammar that `language` names, or in the
    /// grammar for plain text where it names none.
    ///
    /// Whatever the highlighter does, there is one sequence of ranges for each
    /// line, no range is empty, and the ranges of a line, joined, are the
    /// beginning of that line and its line feed. Where there is no line, nothing
    /// can fail.
    pub fn highlight_lines(&self, language: &str, lines: &Vec<Vec<char>>) -> (ranges: Result<
        Vec<Vec<StyledToken>>,
        HighlightError,
    >)
        ensures
            lines.len() == 0 ==> ranges is Ok,
            ranges matches Ok(v) ==> v.len() == lines.len() && forall|i: int|
                0 <= i < v.len() ==> is_split_of_prefix(
                    range_texts((#[trigger] v[i])@),
                    lines[i]@.push('\n'),
                ),
    {
        if lines.len() == 0 {
            return Ok(Vec::new());
        }
        let syntax = match choose_grammar(
            self.set.find_syntax_by_token(language),
            self.set.find_syntax_by_name(PLAIN_TEXT),
        ) {
            Ok(syntax) => syntax,
            Err(e) => {
                return Err(e);
            },
        };
        let mut state = HighlightLines::new(syntax, &self.theme);
        let mut all: Vec<Vec<StyledToken>> = Vec::new();
        let mut i: usize = 0;
        while i < lines.len()
            invariant
                i <= lines.len(),
                all.len() == i,
                forall|k: int|
                    0 <= k < all.len() ==> is_split_of_prefix(
                        range_texts((#[trigger] all[k])@),
                        lines[k]@.push('\n'),
                    ),
            decreases lines.len() - i,
        {
            let mut line = from_chars(&lines[i]);
            line.push('\n');
            match line_ranges(highlight_line(&mut state, line.as_str(), &self.set)) {
                Ok(ranges) => {
                    all.push(ranges);
                },
                Err(e) => {
                    return Err(e);
                },
            }
            i += 1;
        }
        Ok(all)
    }
}

} // verus!
