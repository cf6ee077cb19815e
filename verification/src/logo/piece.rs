//! The glyph an animated piece shows as it travels.
//!
//! A piece moves from a start to an end position over its time window; the
//! position follows an easing curve sampled by the caller, and the glyph
//! changes with the share of the window that has passed.

use vstd::prelude::*;

verus! {

/// How far a piece is through its window: not started, in the first 30%,
/// between 30% and 60%, in the rest, or done.
#[derive(PartialEq, Eq, Structural, Clone, Copy)]
pub enum Stage {
    Before,
    Early,
    Middle,
    Late,
    After,
}

/// The transitional glyph between two: `/` after `╱`, `\` after `╲`, else
/// the end glyph.
pub open spec fn mid_glyph_spec(start: char, end: char) -> char {
    if start == '╱' {
        '/'
    } else if start == '╲' {
        '\\'
    } else {
        end
    }
}

/// Picks a transitional glyph between start and end (`╱` → `/` → `━`,
/// `╲` → `\` → `━`).
pub fn mid_glyph(start: char, end: char) -> (c: char)
    ensures
        c == mid_glyph_spec(start, end),
{
    if start == '╱' {
        '/'
    } else if start == '╲' {
        '\\'
    } else {
        end
    }
}

/// The glyph a piece shows at a stage: the start glyph until 30% of the
/// window, the transitional glyph until 60%, then the end glyph.
pub open spec fn glyph_at_spec(start: char, end: char, stage: Stage) -> char {
    match stage {
        Stage::Before | Stage::Early => start,
        Stage::Middle => mid_glyph_spec(start, end),
        Stage::Late | Stage::After => end,
    }
}

/// The glyph a piece shows at a stage.
pub fn glyph_at(start: char, end: char, stage: Stage) -> (c: char)
    ensures
        c == glyph_at_spec(start, end, stage),
{
    match stage {
        Stage::Before | Stage::Early => start,
        Stage::Middle => mid_glyph(start, end),
        Stage::Late | Stage::After => end,
    }
}

} // verus!
