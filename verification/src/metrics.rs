//! Font metrics as plain integers, in units of 1/64 of a pixel.

use crate::chars::lemma_code_points_differ;
use std::collections::HashMap;
use vstd::prelude::*;

verus! {

/// How many layout units make one pixel.
pub const UNITS_PER_PIXEL: u64 = 64;

/// The metrics of one font at one size. All lengths are in layout units.
pub struct FontMetrics {
    /// Height of the tallest glyph above the baseline.
    pub ascent: u32,
    /// Depth of the deepest glyph below the baseline.
    pub descent: u32,
    /// Extra space between two lines.
    pub line_gap: u32,
    /// Advance width of a character that has no entry in `advances`.
    pub fallback_advance: u32,
    /// Advance width by code point.
    pub advances: HashMap<u32, u32>,
}

impl FontMetrics {
    /// The advance width of `c`.
    pub open spec fn advance(&self, c: char) -> nat {
        if self.advances@.contains_key(c as u32) {
            self.advances@[c as u32] as nat
        } else {
            self.fallback_advance as nat
        }
    }

    /// The distance from one baseline to the next.
    pub open spec fn line_height(&self) -> nat {
        (self.ascent + self.descent + self.line_gap) as nat
    }

    /// Metrics in which every character has the advance width `fallback_advance`.
    pub fn new(ascent: u32, descent: u32, line_gap: u32, fallback_advance: u32) -> (m: FontMetrics)
        ensures
            m.ascent == ascent,
            m.descent == descent,
            m.line_gap == line_gap,
            m.fallback_advance == fallback_advance,
            m.advances@ == Map::<u32, u32>::empty(),
            forall|c: char| m.advance(c) == fallback_advance,
    {
        FontMetrics { ascent, descent, line_gap, fallback_advance, advances: HashMap::new() }
    }

    /// Records the advance width of `c`.
    pub fn set_advance(&mut self, c: char, advance: u32)
        ensures
            final(self).ascent == old(self).ascent,
            final(self).descent == old(self).descent,
            final(self).line_gap == old(self).line_gap,
            final(self).fallback_advance == old(self).fallback_advance,
            final(self).advances@ == old(self).advances@.insert(c as u32, advance),
            final(self).advance(c) == advance,
            forall|d: char| d != c ==> final(self).advance(d) == old(self).advance(d),
    {
        broadcast use vstd::std_specs::hash::group_hash_axioms;

        self.advances.insert(c as u32, advance);
        proof {
            assert forall|d: char| d != c implies final(self).advance(d) == old(self).advance(
                d,
            ) by {
                lemma_code_points_differ(c, d);
            }
        }
    }

    /// The advance width of `c`.
    pub fn advance_of(&self, c: char) -> (a: u32)
        ensures
            a == self.advance(c),
    {
        broadcast use vstd::std_specs::hash::group_hash_axioms;

        let key: u32 = c as u32;
        match self.advances.get(&key) {
            Some(a) => *a,
            None => self.fallback_advance,
        }
    }

    /// The distance from one baseline to the next.
    pub fn line_height_units(&self) -> (h: u64)
        ensures
            h == self.line_height(),
    {
        self.ascent as u64 + self.descent as u64 + self.line_gap as u64
    }
}

/// The sum of the advance widths of the characters of `s`.
pub open spec fn text_width(m: FontMetrics, s: Seq<char>) -> nat
    decreases s.len(),
{
    if s.len() == 0 {
        0
    } else {
        text_width(m, s.drop_last()) + m.advance(s.last())
    }
}

/// `n`, or the largest `u64` where `n` is larger.
pub open spec fn clamp_u64(n: nat) -> nat {
    if n > u64::MAX {
        u64::MAX as nat
    } else {
        n
    }
}

/// The width of `s` as it is measured: its `text_width`, capped at the largest
/// `u64`.
pub open spec fn measured_width(m: FontMetrics, s: Seq<char>) -> nat {
    clamp_u64(text_width(m, s))
}

/// The width of `text`: the sum of the advance widths of its characters.
pub fn measure_text_width(m: &FontMetrics, text: &str) -> (w: u64)
    ensures
        w == measured_width(*m, text@),
{
    let mut w: u64 = 0;
    for c in it: text.chars()
        invariant
            it.seq() == text@,
            w == measured_width(*m, text@.take(it.index())),
    {
        proof {
            assert(text@.take(it.index() + 1).drop_last() =~= text@.take(it.index()));
        }
        let a = m.advance_of(c);
        w = w.saturating_add(a as u64);
    }
    proof {
        assert(text@.take(text@.len() as int) =~= text@);
    }
    w
}

} // verus!
