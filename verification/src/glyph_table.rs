//! Glyph tables written out as Rust source.
//!
//! The card's text is drawn from per-face tables of glyph advances and
//! outlines, one entry per printable ASCII character from the space onwards.
//! Extracting outlines from a font is floating-point work done by a tool;
//! writing the extracted tables out as source is done here.

use crate::cache::{lowercase, to_lowercase};
use crate::strings::{decimal, push_decimal, push_str};
use vstd::prelude::*;

verus! {

/// The code of the first character a table covers: the space.
pub const FIRST_CODE: u32 = 32;

/// One glyph as extracted from a face: its advance in em units and its
/// outline as SVG path data.
pub struct Extracted {
    pub advance: u16,
    pub path: String,
}

/// A Unicode scalar value: what `char::from_u32` accepts.
pub open spec fn is_scalar(code: u32) -> bool {
    code < 0xD800 || (0xE000 <= code && code <= 0x10FFFF)
}

/// `char::from_u32`: the character with that code, for a valid code.
#[verifier::external_body]
fn char_from_code(code: u32) -> (r: Option<char>)
    ensures
        is_scalar(code) ==> r == Some(code as char),
        !is_scalar(code) ==> r is None,
{
    char::from_u32(code)
}

/// A name for how `Debug` writes a character: quoted, with escapes, e.g.
/// `'a'`, `'\''` or `'\u{7f}'`.
pub uninterp spec fn char_debug(c: char) -> Seq<char>;

/// `format!("{:?}", c)`. Its result is named by [`char_debug`]: the escaping
/// rules follow Unicode's printable and grapheme tables.
#[verifier::external_body]
fn debug_char(c: char) -> (r: String)
    ensures
        r@ == char_debug(c),
{
    format!("{:?}", c)
}

/// The texts of the extracted glyphs.
pub open spec fn glyph_views(glyphs: Seq<Extracted>) -> Seq<(u16, Seq<char>)> {
    glyphs.map_values(|g: Extracted| (g.advance, g.path@))
}

/// One table entry, commented with the character it draws.
pub open spec fn glyph_line(advance: u16, path: Seq<char>, ch: char) -> Seq<char> {
    "    Glyph { advance: "@ + decimal(advance as nat) + ", path: \""@ + path + "\" }, // "@
        + char_debug(ch) + "\n"@
}

/// The entries for the first `n` glyphs, the glyph at index `i` drawing the
/// character with code `FIRST_CODE + i`.
pub open spec fn glyph_lines(glyphs: Seq<(u16, Seq<char>)>, n: nat) -> Seq<char>
    decreases n,
{
    if n == 0 {
        Seq::empty()
    } else {
        let i = n - 1;
        glyph_lines(glyphs, i as nat) + glyph_line(
            glyphs[i].0,
            glyphs[i].1,
            (FIRST_CODE + i) as u32 as char,
        )
    }
}

/// A whole table as source: a doc line, the `static` and its entries.
pub open spec fn table_source(name: Seq<char>, glyphs: Seq<(u16, Seq<char>)>) -> Seq<char> {
    "/// "@ + lowercase(name) + " glyphs, indexed by `ch as usize - FIRST as usize`.\npub static "@
        + name + ": [Glyph; "@ + decimal(glyphs.len()) + "] = [\n"@ + glyph_lines(
        glyphs,
        glyphs.len(),
    ) + "];\n\n"@
}

/// Appends the table `name` of `glyphs` as Rust source. Every glyph's index
/// must name a character, so a table stops short of the surrogate codes.
pub fn emit(name: &str, glyphs: &[Extracted], out: &mut String)
    requires
        glyphs@.len() + FIRST_CODE <= 0xD800,
    ensures
        final(out)@ == old(out)@ + table_source(name@, glyph_views(glyphs@)),
{
    let ghost start = out@;
    push_str(out, "/// ");
    let lower = to_lowercase(name);
    push_str(out, lower.as_str());
    push_str(out, " glyphs, indexed by `ch as usize - FIRST as usize`.\npub static ");
    push_str(out, name);
    push_str(out, ": [Glyph; ");
    push_decimal(out, glyphs.len() as u64);
    push_str(out, "] = [\n");
    let ghost head = out@;
    let n = glyphs.len();
    let mut index: usize = 0;
    while index < n
        invariant
            n == glyphs@.len(),
            n + FIRST_CODE <= 0xD800,
            index <= n,
            out@ == head + glyph_lines(glyph_views(glyphs@), index as nat),
        decreases n - index,
    {
        let code: u32 = FIRST_CODE + index as u32;
        let ch = match char_from_code(code) {
            Some(c) => c,
            None => ' ',
        };
        let glyph = &glyphs[index];
        push_str(out, "    Glyph { advance: ");
        push_decimal(out, glyph.advance as u64);
        push_str(out, ", path: \"");
        push_str(out, glyph.path.as_str());
        push_str(out, "\" }, // ");
        let shown = debug_char(ch);
        push_str(out, shown.as_str());
        push_str(out, "\n");
        proof {
            let views = glyph_views(glyphs@);
            assert(views[index as int] == (glyph.advance, glyph.path@));
            assert(out@ =~= head + glyph_lines(views, (index + 1) as nat));
        }
        index = index + 1;
    }
    push_str(out, "];\n\n");
    proof {
        assert(glyph_views(glyphs@).len() == glyphs@.len());
        assert(out@ =~= start + table_source(name@, glyph_views(glyphs@)));
    }
}

} // verus!
