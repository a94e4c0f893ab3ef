//! Request parameter validation.
//!
//! The rules are part of the public API: a request accepted once keeps being
//! accepted, and one rejected keeps failing.

use crate::strings::{
    chars_of, parse_i32, parse_i32_bytes, push_signed, push_str, signed_decimal, trim, trimmed,
};
use vstd::prelude::*;
use vstd::utf8::encode_utf8;

verus! {

/// Card colour scheme.
#[derive(Debug, Clone, Copy, PartialEq, Eq, Structural)]
pub enum Theme {
    Default,
    Dark,
    Light,
    Minimal,
    Cyberpunk,
    Ocean,
    Forest,
    Sunset,
    Galaxy,
}

/// A theme's name.
pub open spec fn theme_name(t: Theme) -> Seq<char> {
    match t {
        Theme::Default => "default"@,
        Theme::Dark => "dark"@,
        Theme::Light => "light"@,
        Theme::Minimal => "minimal"@,
        Theme::Cyberpunk => "cyberpunk"@,
        Theme::Ocean => "ocean"@,
        Theme::Forest => "forest"@,
        Theme::Sunset => "sunset"@,
        Theme::Galaxy => "galaxy"@,
    }
}

/// ASCII upper-case letters folded to lower case; every other character kept.
pub open spec fn ascii_lower(c: char) -> char {
    if 'A' <= c <= 'Z' {
        ((c as u8) + 32) as u8 as char
    } else {
        c
    }
}

/// `s` spells `name` ignoring ASCII case (`name` is lower case).
pub open spec fn matches_ignoring_case(s: Seq<char>, name: Seq<char>) -> bool {
    s.len() == name.len() && forall|i: int| 0 <= i < s.len() ==> ascii_lower(#[trigger] s[i]) == name[i]
}

/// The theme `s` names, ignoring ASCII case, checked in declaration order.
pub open spec fn theme_named(s: Seq<char>) -> Option<Theme> {
    if matches_ignoring_case(s, theme_name(Theme::Default)) {
        Some(Theme::Default)
    } else if matches_ignoring_case(s, theme_name(Theme::Dark)) {
        Some(Theme::Dark)
    } else if matches_ignoring_case(s, theme_name(Theme::Light)) {
        Some(Theme::Light)
    } else if matches_ignoring_case(s, theme_name(Theme::Minimal)) {
        Some(Theme::Minimal)
    } else if matches_ignoring_case(s, theme_name(Theme::Cyberpunk)) {
        Some(Theme::Cyberpunk)
    } else if matches_ignoring_case(s, theme_name(Theme::Ocean)) {
        Some(Theme::Ocean)
    } else if matches_ignoring_case(s, theme_name(Theme::Forest)) {
        Some(Theme::Forest)
    } else if matches_ignoring_case(s, theme_name(Theme::Sunset)) {
        Some(Theme::Sunset)
    } else if matches_ignoring_case(s, theme_name(Theme::Galaxy)) {
        Some(Theme::Galaxy)
    } else {
        None
    }
}

fn fold_ascii(c: char) -> (r: char)
    ensures
        r == ascii_lower(c),
{
    if 'A' <= c && c <= 'Z' {
        let b: u8 = (c as u8) + 32;
        b as char
    } else {
        c
    }
}

/// Whether `v` spells `name` ignoring ASCII case.
fn spells(v: &Vec<char>, name: &str) -> (r: bool)
    ensures
        r == matches_ignoring_case(v@, name@),
{
    let target = chars_of(name);
    if v.len() != target.len() {
        return false;
    }
    let mut i: usize = 0;
    while i < v.len()
        invariant
            v@.len() == target@.len() == name@.len(),
            target@ == name@,
            i <= v@.len(),
            forall|k: int| 0 <= k < i ==> ascii_lower(#[trigger] v@[k]) == name@[k],
        decreases v@.len() - i,
    {
        if fold_ascii(v[i]) != target[i] {
            return false;
        }
        i = i + 1;
    }
    true
}

impl Theme {
    /// Every theme, in declaration order.
    pub const ALL: [Theme; 9] = [
        Theme::Default,
        Theme::Dark,
        Theme::Light,
        Theme::Minimal,
        Theme::Cyberpunk,
        Theme::Ocean,
        Theme::Forest,
        Theme::Sunset,
        Theme::Galaxy,
    ];

    pub fn as_str(self) -> (r: &'static str)
        ensures
            r@ == theme_name(self),
    {
        match self {
            Theme::Default => "default",
            Theme::Dark => "dark",
            Theme::Light => "light",
            Theme::Minimal => "minimal",
            Theme::Cyberpunk => "cyberpunk",
            Theme::Ocean => "ocean",
            Theme::Forest => "forest",
            Theme::Sunset => "sunset",
            Theme::Galaxy => "galaxy",
        }
    }

    /// The theme a name spells, ignoring ASCII case.
    pub fn from_name(s: &str) -> (r: Option<Theme>)
        ensures
            r == theme_named(s@),
    {
        let v = chars_of(s);
        if spells(&v, Theme::Default.as_str()) {
            Some(Theme::Default)
        } else if spells(&v, Theme::Dark.as_str()) {
            Some(Theme::Dark)
        } else if spells(&v, Theme::Light.as_str()) {
            Some(Theme::Light)
        } else if spells(&v, Theme::Minimal.as_str()) {
            Some(Theme::Minimal)
        } else if spells(&v, Theme::Cyberpunk.as_str()) {
            Some(Theme::Cyberpunk)
        } else if spells(&v, Theme::Ocean.as_str()) {
            Some(Theme::Ocean)
        } else if spells(&v, Theme::Forest.as_str()) {
            Some(Theme::Forest)
        } else if spells(&v, Theme::Sunset.as_str()) {
            Some(Theme::Sunset)
        } else if spells(&v, Theme::Galaxy.as_str()) {
            Some(Theme::Galaxy)
        } else {
            None
        }
    }
}

impl Default for Theme {
    fn default() -> (r: Theme)
        ensures
            r == Theme::Default,
    {
        Theme::Default
    }
}

/// Every theme name the renderer accepts, in declaration order, for
/// populating a picker.
pub fn theme_names() -> (r: Vec<String>)
    ensures
        r@.len() == 9,
        forall|i: int| 0 <= i < 9 ==> (#[trigger] r@[i])@ == theme_name(Theme::ALL[i]),
{
    let mut names: Vec<String> = Vec::new();
    let mut i: usize = 0;
    while i < 9
        invariant
            i <= 9,
            names@.len() == i,
            forall|k: int| 0 <= k < i ==> (#[trigger] names@[k])@ == theme_name(Theme::ALL[k]),
        decreases 9 - i,
    {
        let theme = Theme::ALL[i];
        names.push(String::from_str(theme.as_str()));
        i = i + 1;
    }
    names
}

/// A theme by name, ignoring ASCII case; the error carries nothing.
impl core::str::FromStr for Theme {
    type Err = ();

    fn from_str(s: &str) -> (r: Result<Theme, ()>)
        ensures
            r == (match theme_named(s@) {
                Some(t) => Ok::<Theme, ()>(t),
                None => Err::<Theme, ()>(()),
            }),
    {
        match Theme::from_name(s) {
            Some(theme) => Ok(theme),
            None => Err(()),
        }
    }
}

/// The theme a query parameter selects: the named theme, or the default for
/// anything missing or unrecognised.
pub open spec fn theme_for(raw: Option<Seq<char>>) -> Theme {
    match raw {
        Some(s) => match theme_named(s) {
            Some(t) => t,
            None => Theme::Default,
        },
        None => Theme::Default,
    }
}

/// Parse a theme, falling back to the default for anything unrecognised.
///
/// Deliberately lenient: a bad `?theme=` in someone's README should still
/// render a card rather than a broken image.
pub fn parse_theme(raw: Option<&str>) -> (r: Theme)
    ensures
        r == theme_for(
            match raw {
                Some(s) => Some(s@),
                None => None,
            },
        ),
{
    match raw {
        Some(s) => match Theme::from_name(s) {
            Some(t) => t,
            None => Theme::Default,
        },
        None => Theme::Default,
    }
}

/// Every theme's own name selects it, so a card linked with `?theme=<name>`
/// renders in that theme.
pub proof fn law_theme_names_round_trip(t: Theme)
    ensures
        theme_named(theme_name(t)) == Some(t),
        theme_for(Some(theme_name(t))) == t,
{
    reveal_strlit("default");
    reveal_strlit("dark");
    reveal_strlit("light");
    reveal_strlit("minimal");
    reveal_strlit("cyberpunk");
    reveal_strlit("ocean");
    reveal_strlit("forest");
    reveal_strlit("sunset");
    reveal_strlit("galaxy");
    let n = theme_name(t);
    assert(matches_ignoring_case(n, n));
    if t != Theme::Default {
        assert(!matches_ignoring_case(n, theme_name(Theme::Default)) ) by {
            if n.len() == 7 { assert(ascii_lower(n[0]) != 'd'); }
        }
    }
    if t != Theme::Dark && t != Theme::Default {
        assert(!matches_ignoring_case(n, theme_name(Theme::Dark)));
    }
    if t != Theme::Light && t != Theme::Dark && t != Theme::Default {
        assert(!matches_ignoring_case(n, theme_name(Theme::Light))) by {
            if n.len() == 5 { assert(ascii_lower(n[0]) != 'l'); }
        }
    }
    if t == Theme::Cyberpunk || t == Theme::Ocean || t == Theme::Forest || t == Theme::Sunset || t == Theme::Galaxy {
        assert(!matches_ignoring_case(n, theme_name(Theme::Minimal)));
    }
    if t == Theme::Ocean || t == Theme::Forest || t == Theme::Sunset || t == Theme::Galaxy {
        assert(!matches_ignoring_case(n, theme_name(Theme::Cyberpunk)));
    }
    if t == Theme::Forest || t == Theme::Sunset || t == Theme::Galaxy {
        assert(!matches_ignoring_case(n, theme_name(Theme::Ocean)));
    }
    if t == Theme::Sunset || t == Theme::Galaxy {
        assert(!matches_ignoring_case(n, theme_name(Theme::Forest))) by {
            assert(ascii_lower(n[0]) != 'f');
        }
    }
    if t == Theme::Galaxy {
        assert(!matches_ignoring_case(n, theme_name(Theme::Sunset))) by {
            assert(ascii_lower(n[0]) != 's');
        }
    }
}

/// ASCII lower-case letters raised to upper case; every other character kept.
pub open spec fn ascii_upper(c: char) -> char {
    if 'a' <= c <= 'z' {
        ((c as u8) - 32) as u8 as char
    } else {
        c
    }
}

/// A text with its ASCII letters raised to upper case.
pub open spec fn ascii_uppercase(s: Seq<char>) -> Seq<char> {
    s.map_values(|c: char| ascii_upper(c))
}

/// Any spelling of a theme's name that differs from it only in ASCII case
/// selects that theme.
pub proof fn law_theme_parse_ignores_ascii_case(s: Seq<char>, t: Theme)
    requires
        matches_ignoring_case(s, theme_name(t)),
    ensures
        theme_named(s) == Some(t),
        theme_for(Some(s)) == t,
{
    assert forall|u: Theme| matches_ignoring_case(s, #[trigger] theme_name(u)) implies u == t by {
        assert forall|i: int| 0 <= i < s.len() implies theme_name(u)[i] == theme_name(t)[i] by {
            assert(ascii_lower(s[i]) == theme_name(u)[i]);
        }
        assert(theme_name(u) =~= theme_name(t));
        law_theme_names_round_trip(u);
        law_theme_names_round_trip(t);
    }
}

/// A lower-case ASCII letter raised to upper case folds back to itself.
proof fn lemma_upper_folds_back(c: char)
    requires
        'a' <= c <= 'z',
    ensures
        ascii_lower(ascii_upper(c)) == c,
{
}

/// Each theme's name spelled in upper case selects that theme.
pub proof fn law_uppercase_theme_names_parse(t: Theme)
    ensures
        theme_named(ascii_uppercase(theme_name(t))) == Some(t),
        theme_for(Some(ascii_uppercase(theme_name(t)))) == t,
{
    reveal_strlit("default");
    reveal_strlit("dark");
    reveal_strlit("light");
    reveal_strlit("minimal");
    reveal_strlit("cyberpunk");
    reveal_strlit("ocean");
    reveal_strlit("forest");
    reveal_strlit("sunset");
    reveal_strlit("galaxy");
    let n = theme_name(t);
    let u = ascii_uppercase(n);
    assert forall|i: int| 0 <= i < u.len() implies ascii_lower(#[trigger] u[i]) == n[i] by {
        assert('a' <= n[i] <= 'z');
        lemma_upper_folds_back(n[i]);
    }
    law_theme_parse_ignores_ascii_case(u, t);
}

/// Earliest season accepted: the contribution graph does not go back
/// meaningfully further.
pub const MIN_SEASON: i32 = 2010;

/// A rejected request parameter.
#[derive(Debug, Clone, PartialEq, Eq)]
pub enum ValidationError {
    Username { value: String },
    Season { value: String, current_year: i32 },
}

/// The latest season a request may name. Next year is allowed, so clients
/// running ahead of UTC don't break at the new year boundary.
pub open spec fn latest_season(current_year: i32) -> int {
    current_year + 1
}

/// The rule a rejected season broke, naming the accepted range.
pub open spec fn season_hint(current_year: i32) -> Seq<char> {
    "Season must be a year between "@ + signed_decimal(MIN_SEASON as int) + " and "@
        + signed_decimal(latest_season(current_year))
}

/// What a rejected parameter is reported as.
pub open spec fn rejection_message(e: ValidationError) -> Seq<char> {
    match e {
        ValidationError::Username { .. } => "Invalid GitHub username format"@,
        ValidationError::Season { .. } => "Invalid season parameter"@,
    }
}

/// The rejected value, as it was read.
pub open spec fn rejected_value(e: ValidationError) -> Seq<char> {
    match e {
        ValidationError::Username { value } => value@,
        ValidationError::Season { value, .. } => value@,
    }
}

/// The rule a rejected value broke.
pub open spec fn rejection_hint(e: ValidationError) -> Seq<char> {
    match e {
        ValidationError::Username { .. } => "Must be 1-39 alphanumeric characters or hyphens"@,
        ValidationError::Season { current_year, .. } => season_hint(current_year),
    }
}

/// The query parameter at fault.
pub open spec fn rejected_field(e: ValidationError) -> Seq<char> {
    match e {
        ValidationError::Username { .. } => "username"@,
        ValidationError::Season { .. } => "season"@,
    }
}

impl ValidationError {
    pub fn message(&self) -> (r: &'static str)
        ensures
            r@ == rejection_message(*self),
    {
        match self {
            ValidationError::Username { .. } => "Invalid GitHub username format",
            ValidationError::Season { .. } => "Invalid season parameter",
        }
    }

    /// The offending value, echoed back so the caller can see what was read.
    pub fn value(&self) -> (r: &str)
        ensures
            r@ == rejected_value(*self),
    {
        match self {
            ValidationError::Username { value } => value.as_str(),
            ValidationError::Season { value, .. } => value.as_str(),
        }
    }

    /// The rule that was broken, in words.
    pub fn hint(&self) -> (r: String)
        ensures
            r@ == rejection_hint(*self),
    {
        match self {
            ValidationError::Username { .. } => String::from_str(
                "Must be 1-39 alphanumeric characters or hyphens",
            ),
            ValidationError::Season { current_year, .. } => {
                let mut out = String::from_str("Season must be a year between ");
                push_signed(&mut out, MIN_SEASON as i64);
                push_str(&mut out, " and ");
                push_signed(&mut out, *current_year as i64 + 1);
                out
            },
        }
    }

    /// The query parameter at fault.
    pub fn field(&self) -> (r: &'static str)
        ensures
            r@ == rejected_field(*self),
    {
        match self {
            ValidationError::Username { .. } => "username",
            ValidationError::Season { .. } => "season",
        }
    }
}

pub type ValidationResult<T> = Result<T, ValidationError>;

/// An ASCII letter or digit.
pub open spec fn is_alnum_byte(b: u8) -> bool {
    (48 <= b <= 57) || (65 <= b <= 90) || (97 <= b <= 122)
}

/// GitHub's username rule over the bytes of a name: 1–39 alphanumerics or
/// hyphens, starting and ending alphanumeric, never two hyphens in a row.
pub open spec fn valid_username_bytes(b: Seq<u8>) -> bool {
    &&& 1 <= b.len() <= 39
    &&& is_alnum_byte(b[0])
    &&& is_alnum_byte(b[b.len() - 1])
    &&& forall|i: int| 0 <= i < b.len() ==> is_alnum_byte(#[trigger] b[i]) || b[i] == 45u8
    &&& forall|i: int| 0 <= i < b.len() - 1 ==> !(#[trigger] b[i] == 45u8 && b[i + 1] == 45u8)
}

/// Whether `username` satisfies GitHub's username rule.
pub open spec fn valid_username(username: Seq<char>) -> bool {
    valid_username_bytes(encode_utf8(username))
}

fn alnum(b: u8) -> (r: bool)
    ensures
        r == is_alnum_byte(b),
{
    (48 <= b && b <= 57) || (65 <= b && b <= 90) || (97 <= b && b <= 122)
}

/// GitHub's username rule: 1–39 alphanumerics or hyphens, no leading,
/// trailing or doubled hyphen.
pub fn is_valid_username(username: &str) -> (r: bool)
    ensures
        r == valid_username(username@),
{
    let bytes = username.as_bytes();
    let n = bytes.len();
    if n == 0 || n > 39 {
        return false;
    }
    if !alnum(bytes[0]) || !alnum(bytes[n - 1]) {
        return false;
    }
    let mut i: usize = 0;
    while i < n
        invariant
            n == bytes@.len(),
            bytes@ == encode_utf8(username@),
            1 <= n <= 39,
            is_alnum_byte(bytes@[0]),
            is_alnum_byte(bytes@[n - 1]),
            i <= n,
            forall|k: int| 0 <= k < i ==> is_alnum_byte(#[trigger] bytes@[k]) || bytes@[k] == 45u8,
            forall|k: int| 0 <= k < i && k < n - 1 ==> !(#[trigger] bytes@[k] == 45u8 && bytes@[k + 1] == 45u8),
        decreases n - i,
    {
        let b = bytes[i];
        if !(alnum(b) || b == 45u8) {
            assert(!(is_alnum_byte(bytes@[i as int]) || bytes@[i as int] == 45u8));
            return false;
        }
        if i + 1 < n && b == 45u8 && bytes[i + 1] == 45u8 {
            assert(bytes@[i as int] == 45u8 && bytes@[i + 1] == 45u8);
            return false;
        }
        i = i + 1;
    }
    true
}

/// `Ok(())` for a valid username; otherwise the rejection, echoing the value.
pub fn validate_username(username: &str) -> (r: ValidationResult<()>)
    ensures
        valid_username(username@) <==> r is Ok,
        r matches Err(e) ==> e matches ValidationError::Username { value } && value@ == username@,
{
    if is_valid_username(username) {
        return Ok(());
    }
    Err(ValidationError::Username { value: String::from_str(username) })
}

/// The year a season parameter reads as: surrounding white space trimmed,
/// then a signed 32-bit decimal integer.
pub open spec fn season_year(raw: Seq<char>) -> Option<i32> {
    parse_i32_bytes(encode_utf8(trimmed(raw)))
}

/// Parse a `?season=` year, if one was supplied.
///
/// Next year is allowed, so clients running ahead of UTC do not break at the
/// new year boundary.
pub fn parse_season(raw: Option<&str>, current_year: i32) -> (r: ValidationResult<Option<i32>>)
    requires
        current_year < i32::MAX,
    ensures
        match raw {
            None => r == Ok::<Option<i32>, ValidationError>(None),
            Some(s) => if s@.len() == 0 {
                r == Ok::<Option<i32>, ValidationError>(None)
            } else {
                match season_year(s@) {
                    Some(y) => if MIN_SEASON <= y <= latest_season(current_year) {
                        r == Ok::<Option<i32>, ValidationError>(Some(y))
                    } else {
                        r matches Err(ValidationError::Season { value, current_year: c })
                            && value@ == s@ && c == current_year
                    },
                    None => r matches Err(ValidationError::Season { value, current_year: c })
                        && value@ == s@ && c == current_year,
                }
            },
        },
{
    let raw = match raw {
        None => return Ok(None),
        Some(s) => s,
    };
    if raw.is_empty() {
        return Ok(None);
    }
    let trimmed_raw = trim(raw);
    let bytes = trimmed_raw.as_str().as_bytes();
    let year = match parse_i32(bytes, 0, bytes.len()) {
        Some(y) => y,
        None => {
            proof {
                assert(bytes@.subrange(0, bytes@.len() as int) =~= bytes@);
            }
            return Err(
                ValidationError::Season { value: String::from_str(raw), current_year },
            );
        },
    };
    proof {
        assert(bytes@.subrange(0, bytes@.len() as int) =~= bytes@);
    }
    if year < MIN_SEASON || year > current_year + 1 {
        return Err(ValidationError::Season { value: String::from_str(raw), current_year });
    }
    Ok(Some(year))
}

} // verus!
