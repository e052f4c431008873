//! Predicates over single Unicode scalar values.
//!
//! Each executable predicate is total and pure, and is proved to agree with
//! an open spec function that restates the standard's definition verbatim.

use vstd::prelude::*;

verus! {

/// A noncharacter: a code point in the inclusive range U+FDD0..=U+FDEF, or
/// one of the 34 plane-boundary code points U+nFFFE / U+nFFFF for each of
/// the 17 planes n = 0..=16.
pub open spec fn spec_is_noncharacter(c: char) -> bool {
    let u = c as u32;
    ||| 0xFDD0 <= u && u <= 0xFDEF
    ||| u == 0xFFFE || u == 0xFFFF
    ||| u == 0x1FFFE || u == 0x1FFFF
    ||| u == 0x2FFFE || u == 0x2FFFF
    ||| u == 0x3FFFE || u == 0x3FFFF
    ||| u == 0x4FFFE || u == 0x4FFFF
    ||| u == 0x5FFFE || u == 0x5FFFF
    ||| u == 0x6FFFE || u == 0x6FFFF
    ||| u == 0x7FFFE || u == 0x7FFFF
    ||| u == 0x8FFFE || u == 0x8FFFF
    ||| u == 0x9FFFE || u == 0x9FFFF
    ||| u == 0xAFFFE || u == 0xAFFFF
    ||| u == 0xBFFFE || u == 0xBFFFF
    ||| u == 0xCFFFE || u == 0xCFFFF
    ||| u == 0xDFFFE || u == 0xDFFFF
    ||| u == 0xEFFFE || u == 0xEFFFF
    ||| u == 0xFFFFE || u == 0xFFFFF
    ||| u == 0x10FFFE || u == 0x10FFFF
}

/// A C0 control: a code point in the inclusive range U+0000..=U+001F.
/// U+007F DELETE is deliberately excluded, unlike the wider ASCII-control
/// classification.
pub open spec fn spec_is_c0_control(c: char) -> bool {
    c as u32 <= 0x1F
}

/// A C0 control or U+0020 SPACE: a code point in the inclusive range
/// U+0000..=U+0020.
pub open spec fn spec_is_c0_control_space(c: char) -> bool {
    c as u32 <= 0x20
}

/// An ASCII tab or newline: exactly U+0009 TAB, U+000A LINE FEED, or
/// U+000D CARRIAGE RETURN.
pub open spec fn spec_is_ascii_tab_newline(c: char) -> bool {
    c == '\u{0009}' || c == '\u{000A}' || c == '\u{000D}'
}

/// Decides whether a codepoint is a noncharacter: in U+FDD0..=U+FDEF, or
/// one of the 34 plane-boundary values U+nFFFE / U+nFFFF.
pub fn is_noncharacter(c: &char) -> (r: bool)
    ensures
        r == spec_is_noncharacter(*c),
{
    let u: u32 = *c as u32;
    (0xFDD0 <= u && u <= 0xFDEF) || (u == 0xFFFE || u == 0xFFFF)
        || (u == 0x1FFFE || u == 0x1FFFF) || (u == 0x2FFFE || u == 0x2FFFF)
        || (u == 0x3FFFE || u == 0x3FFFF) || (u == 0x4FFFE || u == 0x4FFFF)
        || (u == 0x5FFFE || u == 0x5FFFF) || (u == 0x6FFFE || u == 0x6FFFF)
        || (u == 0x7FFFE || u == 0x7FFFF) || (u == 0x8FFFE || u == 0x8FFFF)
        || (u == 0x9FFFE || u == 0x9FFFF) || (u == 0xAFFFE || u == 0xAFFFF)
        || (u == 0xBFFFE || u == 0xBFFFF) || (u == 0xCFFFE || u == 0xCFFFF)
        || (u == 0xDFFFE || u == 0xDFFFF) || (u == 0xEFFFE || u == 0xEFFFF)
        || (u == 0xFFFFE || u == 0xFFFFF) || (u == 0x10FFFE || u == 0x10FFFF)
}

/// Decides whether a codepoint is a C0 control (U+0000..=U+001F). Returns
/// false for U+007F DELETE.
pub fn is_c0_control(c: &char) -> (r: bool)
    ensures
        r == spec_is_c0_control(*c),
{
    (*c as u32) <= 0x1F
}

/// Decides whether a codepoint is a C0 control or U+0020 SPACE
/// (U+0000..=U+0020).
pub fn is_c0_control_space(c: &char) -> (r: bool)
    ensures
        r == spec_is_c0_control_space(*c),
{
    (*c as u32) <= 0x20
}

/// Decides whether a codepoint is U+0009 TAB, U+000A LINE FEED, or
/// U+000D CARRIAGE RETURN.
pub fn is_ascii_tab_newline(c: &char) -> (r: bool)
    ensures
        r == spec_is_ascii_tab_newline(*c),
{
    let u: u32 = *c as u32;
    u == 0x09 || u == 0x0A || u == 0x0D
}

/// Every scalar value in the inclusive range U+FDD0..=U+FDEF is a
/// noncharacter.
pub proof fn lemma_noncharacter_low_range(c: char)
    requires
        0xFDD0 <= c as u32 <= 0xFDEF,
    ensures
        spec_is_noncharacter(c),
{
}

/// The last two code points of each of the 17 planes, U+nFFFE and U+nFFFF
/// for n = 0..=16, are noncharacters: all 34 plane-boundary values.
pub proof fn lemma_noncharacter_plane_boundaries(plane: u32, c: char)
    requires
        plane <= 16,
        c as u32 == plane * 0x10000 + 0xFFFE || c as u32 == plane * 0x10000 + 0xFFFF,
    ensures
        spec_is_noncharacter(c),
{
}

} // verus!
