//! The competitive ladder: tiers, divisions and their colours.
//!
//! The maths that places a user on the ladder works in floating point and
//! lives with the service; this module holds the ladder itself.

use crate::strings::push_str;
use vstd::prelude::*;

verus! {

/// Competitive tier, ordered lowest to highest.
#[derive(Debug, Clone, Copy, PartialEq, Eq, PartialOrd, Ord, Hash, Structural)]
pub enum Tier {
    Iron,
    Bronze,
    Silver,
    Gold,
    Platinum,
    Emerald,
    Diamond,
    Master,
    Grandmaster,
    Challenger,
}

/// A tier's position on the ladder, Iron = 0 … Challenger = 9.
pub open spec fn tier_rank(t: Tier) -> nat {
    match t {
        Tier::Iron => 0,
        Tier::Bronze => 1,
        Tier::Silver => 2,
        Tier::Gold => 3,
        Tier::Platinum => 4,
        Tier::Emerald => 5,
        Tier::Diamond => 6,
        Tier::Master => 7,
        Tier::Grandmaster => 8,
        Tier::Challenger => 9,
    }
}

/// A tier's display name.
pub open spec fn tier_name(t: Tier) -> Seq<char> {
    match t {
        Tier::Iron => "Iron"@,
        Tier::Bronze => "Bronze"@,
        Tier::Silver => "Silver"@,
        Tier::Gold => "Gold"@,
        Tier::Platinum => "Platinum"@,
        Tier::Emerald => "Emerald"@,
        Tier::Diamond => "Diamond"@,
        Tier::Master => "Master"@,
        Tier::Grandmaster => "Grandmaster"@,
        Tier::Challenger => "Challenger"@,
    }
}

impl Tier {
    /// Every tier, highest first.
    pub const ALL_DESC: [Tier; 10] = [
        Tier::Challenger,
        Tier::Grandmaster,
        Tier::Master,
        Tier::Diamond,
        Tier::Emerald,
        Tier::Platinum,
        Tier::Gold,
        Tier::Silver,
        Tier::Bronze,
        Tier::Iron,
    ];

    pub fn as_str(self) -> (r: &'static str)
        ensures
            r@ == tier_name(self),
    {
        match self {
            Tier::Iron => "Iron",
            Tier::Bronze => "Bronze",
            Tier::Silver => "Silver",
            Tier::Gold => "Gold",
            Tier::Platinum => "Platinum",
            Tier::Emerald => "Emerald",
            Tier::Diamond => "Diamond",
            Tier::Master => "Master",
            Tier::Grandmaster => "Grandmaster",
            Tier::Challenger => "Challenger",
        }
    }

    /// Master and above are undivided.
    pub fn has_divisions(self) -> (r: bool)
        ensures
            r == (tier_rank(self) < tier_rank(Tier::Master)),
    {
        match self {
            Tier::Master | Tier::Grandmaster | Tier::Challenger => false,
            _ => true,
        }
    }
}

/// Division within a tier. `I` is the highest, `IV` the lowest.
#[derive(Debug, Clone, Copy, PartialEq, Eq, Hash, Structural)]
pub enum Division {
    IV,
    III,
    II,
    I,
}

/// A division's position within its tier, IV = 0 … I = 3.
pub open spec fn division_rank(d: Division) -> nat {
    match d {
        Division::IV => 0,
        Division::III => 1,
        Division::II => 2,
        Division::I => 3,
    }
}

/// A division's roman numeral.
pub open spec fn division_name(d: Division) -> Seq<char> {
    match d {
        Division::IV => "IV"@,
        Division::III => "III"@,
        Division::II => "II"@,
        Division::I => "I"@,
    }
}

impl Division {
    /// Index from the bottom of the tier: IV = 0 … I = 3.
    pub fn index(self) -> (r: u32)
        ensures
            r == division_rank(self),
    {
        match self {
            Division::IV => 0,
            Division::III => 1,
            Division::II => 2,
            Division::I => 3,
        }
    }

    pub fn as_str(self) -> (r: &'static str)
        ensures
            r@ == division_name(self),
    {
        match self {
            Division::IV => "IV",
            Division::III => "III",
            Division::II => "II",
            Division::I => "I",
        }
    }
}

/// All four divisions, lowest first.
pub const DIVISIONS_ASC: [Division; 4] = [Division::IV, Division::III, Division::II, Division::I];

/// The value of one roman digit: `I` is one, `V` five, anything else nothing.
pub open spec fn roman_digit(c: char) -> nat {
    if c == 'I' {
        1
    } else if c == 'V' {
        5
    } else {
        0
    }
}

/// The value of a roman numeral, a smaller digit before a larger one
/// subtracting from it.
pub open spec fn roman_value(s: Seq<char>) -> int
    decreases s.len(),
{
    if s.len() == 0 {
        0
    } else if s.len() >= 2 && roman_digit(s[0]) < roman_digit(s[1]) {
        roman_digit(s[1]) - roman_digit(s[0]) + roman_value(s.subrange(2, s.len() as int))
    } else {
        roman_digit(s[0]) + roman_value(s.subrange(1, s.len() as int))
    }
}

/// Divisions climb the ladder from the bottom: the `i`-th division from the
/// bottom has index `i`, and a division's index counts up as its numeral
/// counts down, from IV at 0 to I at 3.
pub proof fn law_division_index_climbs_the_ladder(d: Division, i: int)
    requires
        0 <= i < 4,
    ensures
        division_rank(DIVISIONS_ASC@[i]) == i,
        division_rank(d) == 4 - roman_value(division_name(d)),
{
    reveal_strlit("I");
    reveal_strlit("II");
    reveal_strlit("III");
    reveal_strlit("IV");
    let s = division_name(d);
    assert(s.subrange(1, s.len() as int).len() < 3);
    reveal_with_fuel(roman_value, 4);
    if d == Division::III {
        assert(s.subrange(1, 3) =~= "II"@);
        assert("II"@.subrange(1, 2) =~= "I"@);
        assert("I"@.subrange(1, 1) =~= Seq::<char>::empty());
    } else if d == Division::II {
        assert(s.subrange(1, 2) =~= "I"@);
        assert("I"@.subrange(1, 1) =~= Seq::<char>::empty());
    } else if d == Division::I {
        assert(s.subrange(1, 1) =~= Seq::<char>::empty());
    } else {
        assert(s.subrange(2, 2) =~= Seq::<char>::empty());
    }
}

/// A tier's full label: `Gold II`, or just `Challenger` when undivided.
pub open spec fn tier_label_text(tier: Tier, division: Option<Division>) -> Seq<char> {
    match division {
        Some(d) => tier_name(tier) + " "@ + division_name(d),
        None => tier_name(tier),
    }
}

/// A tier's full label, e.g. `Gold II` or `Challenger`.
pub fn tier_label(tier: Tier, division: Option<Division>) -> (r: String)
    ensures
        r@ == tier_label_text(tier, division),
{
    let mut out = String::new();
    push_str(&mut out, tier.as_str());
    if let Some(d) = division {
        push_str(&mut out, " ");
        push_str(&mut out, d.as_str());
    }
    out
}

/// A tier's gradient stops, start then end.
pub open spec fn tier_gradient(t: Tier) -> (Seq<char>, Seq<char>) {
    match t {
        Tier::Iron => ("#3a3a3a"@, "#1a1a1a"@),
        Tier::Bronze => ("#8B4513"@, "#CD7F32"@),
        Tier::Silver => ("#C0C0C0"@, "#A8A8A8"@),
        Tier::Gold => ("#FFD700"@, "#FDB931"@),
        Tier::Platinum => ("#00CED1"@, "#20B2AA"@),
        Tier::Emerald => ("#50C878"@, "#2E8B57"@),
        Tier::Diamond => ("#B9F2FF"@, "#00D4FF"@),
        Tier::Master => ("#9932CC"@, "#8B008B"@),
        Tier::Grandmaster => ("#DC143C"@, "#8B0000"@),
        Tier::Challenger => ("#FFD700"@, "#FF8C00"@),
    }
}

/// A tier's accent colour.
pub open spec fn tier_accent(t: Tier) -> Seq<char> {
    match t {
        Tier::Iron => "#5c5c5c"@,
        Tier::Bronze => "#D4A574"@,
        Tier::Silver => "#E8E8E8"@,
        Tier::Gold => "#FFF4B8"@,
        Tier::Platinum => "#7FFFD4"@,
        Tier::Emerald => "#98FB98"@,
        Tier::Diamond => "#E0FFFF"@,
        Tier::Master => "#DA70D6"@,
        Tier::Grandmaster => "#FF6B6B"@,
        Tier::Challenger => "#FFF700"@,
    }
}

/// Gradient and accent colours for a tier: `([start, end], accent)`.
pub fn tier_colors(tier: Tier) -> (r: ([&'static str; 2], &'static str))
    ensures
        r.0[0]@ == tier_gradient(tier).0,
        r.0[1]@ == tier_gradient(tier).1,
        r.1@ == tier_accent(tier),
{
    match tier {
        Tier::Iron => (["#3a3a3a", "#1a1a1a"], "#5c5c5c"),
        Tier::Bronze => (["#8B4513", "#CD7F32"], "#D4A574"),
        Tier::Silver => (["#C0C0C0", "#A8A8A8"], "#E8E8E8"),
        Tier::Gold => (["#FFD700", "#FDB931"], "#FFF4B8"),
        Tier::Platinum => (["#00CED1", "#20B2AA"], "#7FFFD4"),
        Tier::Emerald => (["#50C878", "#2E8B57"], "#98FB98"),
        Tier::Diamond => (["#B9F2FF", "#00D4FF"], "#E0FFFF"),
        Tier::Master => (["#9932CC", "#8B008B"], "#DA70D6"),
        Tier::Grandmaster => (["#DC143C", "#8B0000"], "#FF6B6B"),
        Tier::Challenger => (["#FFD700", "#FF8C00"], "#FFF700"),
    }
}

} // verus!
