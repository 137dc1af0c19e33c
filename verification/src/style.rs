//! Colours and styled pieces of text.

use vstd::prelude::*;

verus! {

/// A foreground colour.
#[derive(Clone, Copy, Debug, PartialEq, Eq, Structural)]
pub struct Rgb {
    pub r: u8,
    pub g: u8,
    pub b: u8,
}

/// A piece of text and the colour it is drawn in: a highlighted range of a
/// source line, or one token of it after tokenizing.
#[derive(Debug, Clone, PartialEq, Eq)]
pub struct StyledToken {
    pub color: Rgb,
    pub text: String,
}

/// The mathematical value of a [`StyledToken`].
pub struct TokenModel {
    pub color: Rgb,
    pub text: Seq<char>,
}

impl View for StyledToken {
    type V = TokenModel;

    open spec fn view(&self) -> TokenModel {
        TokenModel { color: self.color, text: self.text@ }
    }
}

/// The values of a sequence of tokens.
pub open spec fn token_views(v: Seq<StyledToken>) -> Seq<TokenModel> {
    v.map_values(|t: StyledToken| t@)
}

/// The values of a sequence of lines of tokens.
pub open spec fn line_views(v: Seq<Vec<StyledToken>>) -> Seq<Seq<TokenModel>> {
    v.map_values(|line: Vec<StyledToken>| token_views(line@))
}

/// The values of a sequence of groups of lines of tokens.
pub open spec fn group_views(v: Seq<Vec<Vec<StyledToken>>>) -> Seq<Seq<Seq<TokenModel>>> {
    v.map_values(|group: Vec<Vec<StyledToken>>| line_views(group@))
}

impl StyledToken {
    /// A token of the given colour and text.
    pub fn new(color: Rgb, text: String) -> (t: StyledToken)
        ensures
            t@ == (TokenModel { color, text: text@ }),
    {
        StyledToken { color, text }
    }

    /// A copy of this token.
    pub fn duplicate(&self) -> (t: StyledToken)
        ensures
            t@ == self@,
    {
        StyledToken { color: self.color, text: self.text.clone() }
    }
}

} // verus!
