//! Text faces and glyph lookup for outlined text.

use vstd::prelude::*;

verus! {

/// The two weights available. CSS weights collapse onto these.
#[derive(Debug, Clone, Copy, PartialEq, Eq, Structural)]
pub enum Weight {
    Regular,
    Bold,
}

impl Weight {
    /// Map a CSS numeric weight onto an available face: 600 and above is bold.
    pub fn from_css(weight: u16) -> (r: Self)
        ensures
            r == (if weight >= 600 { Weight::Bold } else { Weight::Regular }),
    {
        if weight >= 600 {
            Weight::Bold
        } else {
            Weight::Regular
        }
    }
}

/// Where `x` sits relative to the rendered run.
#[derive(Debug, Clone, Copy, PartialEq, Eq, Structural)]
pub enum Anchor {
    Start,
    Middle,
    End,
}

/// The first character the glyph tables hold.
pub const FIRST_CHAR: char = ' ';

/// How many glyphs each table holds: printable ASCII, space to tilde.
pub const GLYPH_COUNT: usize = 95;

/// The table slot for a character: its offset from the space, or the slot
/// of `?` for anything outside printable ASCII.
pub open spec fn glyph_slot(ch: char) -> nat {
    let code = ch as u32;
    if 32 <= code && code - 32 < 95 {
        (code - 32) as nat
    } else {
        31
    }
}

/// Look up a glyph's table slot, substituting `?` for anything outside the
/// embedded set — better a visible `?` than a silently missing character.
pub fn glyph_index(ch: char) -> (r: usize)
    ensures
        r == glyph_slot(ch),
        r < GLYPH_COUNT,
{
    let code = ch as u32;
    match code.checked_sub(32) {
        Some(offset) => if offset < 95 {
            offset as usize
        } else {
            31
        },
        None => 31,
    }
}

} // verus!
