//! Card colour palettes.

use crate::strings::same_text;
use crate::validation::Theme;
use vstd::prelude::*;
use vstd::utf8::encode_utf8;

verus! {

/// The colours a card is drawn with.
#[derive(Debug, Clone, Copy, PartialEq, Eq)]
pub struct Palette {
    /// Gradient start, and the card's base colour.
    pub background_primary: &'static str,
    /// Gradient midpoint, and the stats panel fill.
    pub background_secondary: &'static str,
    pub border: &'static str,
    pub text_primary: &'static str,
    pub text_secondary: &'static str,
    pub text_muted: &'static str,
}

/// A palette's colours as text.
pub struct PaletteText {
    pub background_primary: Seq<char>,
    pub background_secondary: Seq<char>,
    pub border: Seq<char>,
    pub text_primary: Seq<char>,
    pub text_secondary: Seq<char>,
    pub text_muted: Seq<char>,
}

impl View for Palette {
    type V = PaletteText;

    open spec fn view(&self) -> PaletteText {
        PaletteText {
            background_primary: self.background_primary@,
            background_secondary: self.background_secondary@,
            border: self.border@,
            text_primary: self.text_primary@,
            text_secondary: self.text_secondary@,
            text_muted: self.text_muted@,
        }
    }
}

/// The palette text of each theme.
pub open spec fn palette_text(theme: Theme) -> PaletteText {
    match theme {
        Theme::Default => PaletteText {
            background_primary: "#0d1117"@,
            background_secondary: "#161b22"@,
            border: "#30363d"@,
            text_primary: "#ffffff"@,
            text_secondary: "#8b949e"@,
            text_muted: "#6e7681"@,
        },
        Theme::Dark => PaletteText {
            background_primary: "#000000"@,
            background_secondary: "#0a0a0a"@,
            border: "#1a1a1a"@,
            text_primary: "#ffffff"@,
            text_secondary: "#8b949e"@,
            text_muted: "#6e7681"@,
        },
        Theme::Light => PaletteText {
            background_primary: "#ffffff"@,
            background_secondary: "#f6f8fa"@,
            border: "#d0d7de"@,
            text_primary: "#0d1117"@,
            text_secondary: "#57606a"@,
            text_muted: "#8c959f"@,
        },
        Theme::Minimal => PaletteText {
            background_primary: "transparent"@,
            background_secondary: "transparent"@,
            border: "#30363d"@,
            text_primary: "#ffffff"@,
            text_secondary: "#8b949e"@,
            text_muted: "#6e7681"@,
        },
        Theme::Cyberpunk => PaletteText {
            background_primary: "#0a0a0f"@,
            background_secondary: "#1a1a2e"@,
            border: "#ff00ff"@,
            text_primary: "#00ffff"@,
            text_secondary: "#ff00ff"@,
            text_muted: "#8b5cf6"@,
        },
        Theme::Ocean => PaletteText {
            background_primary: "#0c1929"@,
            background_secondary: "#1a365d"@,
            border: "#2b6cb0"@,
            text_primary: "#e2e8f0"@,
            text_secondary: "#90cdf4"@,
            text_muted: "#63b3ed"@,
        },
        Theme::Forest => PaletteText {
            background_primary: "#0d1f0d"@,
            background_secondary: "#1a3a1a"@,
            border: "#2f5f2f"@,
            text_primary: "#d4edda"@,
            text_secondary: "#68d391"@,
            text_muted: "#48bb78"@,
        },
        Theme::Sunset => PaletteText {
            background_primary: "#1a0a0a"@,
            background_secondary: "#2d1515"@,
            border: "#c53030"@,
            text_primary: "#fed7d7"@,
            text_secondary: "#fc8181"@,
            text_muted: "#f56565"@,
        },
        Theme::Galaxy => PaletteText {
            background_primary: "#0d0d1a"@,
            background_secondary: "#1a1a33"@,
            border: "#6b46c1"@,
            text_primary: "#e9d8fd"@,
            text_secondary: "#b794f4"@,
            text_muted: "#9f7aea"@,
        },
    }
}

/// The word a transparent surface is spelled with.
pub open spec fn transparent_text() -> Seq<char> {
    "transparent"@
}

impl Palette {
    /// `minimal` is transparent by design, so the card sits on whatever is
    /// behind it.
    pub fn is_transparent(&self) -> (r: bool)
        ensures
            r == (self.background_primary@ == transparent_text()),
    {
        same_text(self.background_primary, "transparent")
    }
}

/// The palette for a theme.
pub fn palette(theme: Theme) -> (r: Palette)
    ensures
        r@ == palette_text(theme),
{
    match theme {
        Theme::Default => Palette {
            background_primary: "#0d1117",
            background_secondary: "#161b22",
            border: "#30363d",
            text_primary: "#ffffff",
            text_secondary: "#8b949e",
            text_muted: "#6e7681",
        },
        Theme::Dark => Palette {
            background_primary: "#000000",
            background_secondary: "#0a0a0a",
            border: "#1a1a1a",
            text_primary: "#ffffff",
            text_secondary: "#8b949e",
            text_muted: "#6e7681",
        },
        Theme::Light => Palette {
            background_primary: "#ffffff",
            background_secondary: "#f6f8fa",
            border: "#d0d7de",
            text_primary: "#0d1117",
            text_secondary: "#57606a",
            text_muted: "#8c959f",
        },
        Theme::Minimal => Palette {
            background_primary: "transparent",
            background_secondary: "transparent",
            border: "#30363d",
            text_primary: "#ffffff",
            text_secondary: "#8b949e",
            text_muted: "#6e7681",
        },
        Theme::Cyberpunk => Palette {
            background_primary: "#0a0a0f",
            background_secondary: "#1a1a2e",
            border: "#ff00ff",
            text_primary: "#00ffff",
            text_secondary: "#ff00ff",
            text_muted: "#8b5cf6",
        },
        Theme::Ocean => Palette {
            background_primary: "#0c1929",
            background_secondary: "#1a365d",
            border: "#2b6cb0",
            text_primary: "#e2e8f0",
            text_secondary: "#90cdf4",
            text_muted: "#63b3ed",
        },
        Theme::Forest => Palette {
            background_primary: "#0d1f0d",
            background_secondary: "#1a3a1a",
            border: "#2f5f2f",
            text_primary: "#d4edda",
            text_secondary: "#68d391",
            text_muted: "#48bb78",
        },
        Theme::Sunset => Palette {
            background_primary: "#1a0a0a",
            background_secondary: "#2d1515",
            border: "#c53030",
            text_primary: "#fed7d7",
            text_secondary: "#fc8181",
            text_muted: "#f56565",
        },
        Theme::Galaxy => Palette {
            background_primary: "#0d0d1a",
            background_secondary: "#1a1a33",
            border: "#6b46c1",
            text_primary: "#e9d8fd",
            text_secondary: "#b794f4",
            text_muted: "#9f7aea",
        },
    }
}

/// Only the minimal theme is transparent: every other card paints its own
/// background.
pub proof fn law_only_minimal_is_transparent(theme: Theme)
    ensures
        palette_text(theme).background_primary == transparent_text() <==> theme == Theme::Minimal,
{
    reveal_strlit("transparent");
    if theme != Theme::Minimal {
        let bg = palette_text(theme).background_primary;
        reveal_strlit("#0d1117");
        reveal_strlit("#000000");
        reveal_strlit("#ffffff");
        reveal_strlit("#0a0a0f");
        reveal_strlit("#0c1929");
        reveal_strlit("#0d1f0d");
        reveal_strlit("#1a0a0a");
        reveal_strlit("#0d0d1a");
        assert(bg[0] != transparent_text()[0]);
    }
}

/// Accent colours for the four stat rows, fixed across themes: they encode
/// which metric is which.
pub const STAT_COLORS: [&'static str; 4] = ["#58a6ff", "#a371f7", "#3fb950", "#f0883e"];


/// The value of an ASCII hexadecimal digit, either case.
pub open spec fn hex_digit_value(b: u8) -> Option<u8> {
    if 48 <= b <= 57 {
        Some((b - 48) as u8)
    } else if 97 <= b <= 102 {
        Some((b - 87) as u8)
    } else if 65 <= b <= 70 {
        Some((b - 55) as u8)
    } else {
        None
    }
}

/// `u8::from_str_radix(_, 16)` on two bytes: two digits, or `+` and a digit.
pub open spec fn hex_pair(hi: u8, lo: u8) -> Option<u8> {
    if hi == 43u8 {
        hex_digit_value(lo)
    } else {
        match (hex_digit_value(hi), hex_digit_value(lo)) {
            (Some(a), Some(b)) => Some((a * 16 + b) as u8),
            _ => None,
        }
    }
}

/// The channels of `#rrggbb` or `#rgb` (each short digit doubled, `f` being
/// `ff`), read from the colour's bytes; `None` for anything else.
pub open spec fn colour_channels(b: Seq<u8>) -> Option<(u8, u8, u8)> {
    if b.len() == 0 || b[0] != 35u8 {
        None
    } else if b.len() == 4 {
        match (hex_digit_value(b[1]), hex_digit_value(b[2]), hex_digit_value(b[3])) {
            (Some(r), Some(g), Some(bl)) => Some(((r * 17) as u8, (g * 17) as u8, (bl * 17) as u8)),
            _ => None,
        }
    } else if b.len() == 7 {
        match (hex_pair(b[1], b[2]), hex_pair(b[3], b[4]), hex_pair(b[5], b[6])) {
            (Some(r), Some(g), Some(bl)) => Some((r, g, bl)),
            _ => None,
        }
    } else {
        None
    }
}

/// A UTF-8 continuation byte: no character starts there.
pub open spec fn is_continuation(b: u8) -> bool {
    128 <= b <= 191
}

fn hex_digit(b: u8) -> (r: Option<u8>)
    ensures
        r == hex_digit_value(b),
{
    if 48 <= b && b <= 57 {
        Some(b - 48)
    } else if 97 <= b && b <= 102 {
        Some(b - 87)
    } else if 65 <= b && b <= 70 {
        Some(b - 55)
    } else {
        None
    }
}

fn hex_byte(hi: u8, lo: u8) -> (r: Option<u8>)
    ensures
        r == hex_pair(hi, lo),
{
    if hi == 43u8 {
        return hex_digit(lo);
    }
    match (hex_digit(hi), hex_digit(lo)) {
        (Some(a), Some(b)) => Some(a * 16 + b),
        _ => None,
    }
}

/// The 0–255 channels of a `#rrggbb` or `#rgb` colour, or `None` when it is
/// not one (`transparent`, say).
///
/// A six-digit colour is read two bytes at a time as text, which is only
/// possible where characters start at those bytes.
pub fn colour_channels_of(colour: &str) -> (r: Option<(u8, u8, u8)>)
    requires
        ({
            let b = encode_utf8(colour@);
            b.len() == 7 && b[0] == 35u8 ==> !is_continuation(b[3]) && !is_continuation(b[5])
        }),
    ensures
        r == colour_channels(encode_utf8(colour@)),
{
    let b = colour.as_bytes();
    if b.len() == 0 || b[0] != 35u8 {
        return None;
    }
    if b.len() == 4 {
        match (hex_digit(b[1]), hex_digit(b[2]), hex_digit(b[3])) {
            (Some(r), Some(g), Some(bl)) => Some((r * 17, g * 17, bl * 17)),
            _ => None,
        }
    } else if b.len() == 7 {
        match (hex_byte(b[1], b[2]), hex_byte(b[3], b[4]), hex_byte(b[5], b[6])) {
            (Some(r), Some(g), Some(bl)) => Some((r, g, bl)),
            _ => None,
        }
    } else {
        None
    }
}

} // verus!
