//! Card rendering: palettes, text faces, tier emblems and the card's
//! text-level pieces.

pub mod card;
pub mod icons;
pub mod text;
pub mod theme;
