//! The text-level pieces of a rank card: escaping, digit grouping, the
//! per-card id namespace, and the card's definitions and background.
//!
//! Layout is measured in floating point and lives with the service; what is
//! here is exact text.

use crate::ranking::{tier_name, Tier};
use crate::render::theme::{transparent_text, Palette};
use crate::strings::{chars_of, decimal, decimal_string, occurs_in, push_char, push_str};
use crate::validation::{theme_name, Theme};
use vstd::prelude::*;
use vstd::utf8::encode_utf8;

verus! {

/// The text one character stands for in XML.
pub open spec fn escaped_char(c: char) -> Seq<char> {
    if c == '&' {
        "&amp;"@
    } else if c == '<' {
        "&lt;"@
    } else if c == '>' {
        "&gt;"@
    } else if c == '"' {
        "&quot;"@
    } else if c == '\'' {
        "&apos;"@
    } else {
        seq![c]
    }
}

/// `s` made safe for an XML text node or attribute.
pub open spec fn escaped(s: Seq<char>) -> Seq<char>
    decreases s.len(),
{
    if s.len() == 0 {
        Seq::empty()
    } else {
        escaped(s.drop_last()) + escaped_char(s.last())
    }
}

/// Escape text destined for an XML text node or attribute.
pub fn escape(text: &str) -> (r: String)
    ensures
        r@ == escaped(text@),
{
    let v = chars_of(text);
    let mut out = String::new();
    let mut i: usize = 0;
    while i < v.len()
        invariant
            v@ == text@,
            i <= v@.len(),
            out@ == escaped(v@.subrange(0, i as int)),
        decreases v@.len() - i,
    {
        let c = v[i];
        proof {
            let prefix = v@.subrange(0, i as int + 1);
            assert(prefix.drop_last() =~= v@.subrange(0, i as int));
            assert(prefix.last() == c);
        }
        if c == '&' {
            push_str(&mut out, "&amp;");
        } else if c == '<' {
            push_str(&mut out, "&lt;");
        } else if c == '>' {
            push_str(&mut out, "&gt;");
        } else if c == '"' {
            push_str(&mut out, "&quot;");
        } else if c == '\'' {
            push_str(&mut out, "&apos;");
        } else {
            push_char(&mut out, c);
        }
        i = i + 1;
    }
    assert(v@.subrange(0, v@.len() as int) =~= v@);
    out
}

/// Escaping leaves no angle bracket or quote behind: escaped text cannot
/// open or close a tag or an attribute.
pub proof fn law_escaped_text_has_no_markup(s: Seq<char>)
    ensures
        forall|i: int| 0 <= i < escaped(s).len() ==> !(#[trigger] escaped(s)[i] == '<' || escaped(s)[i]
            == '>' || escaped(s)[i] == '"' || escaped(s)[i] == '\''),
    decreases s.len(),
{
    reveal_strlit("&amp;");
    reveal_strlit("&lt;");
    reveal_strlit("&gt;");
    reveal_strlit("&quot;");
    reveal_strlit("&apos;");
    if s.len() > 0 {
        law_escaped_text_has_no_markup(s.drop_last());
        let head = escaped(s.drop_last());
        let tail = escaped_char(s.last());
        assert(escaped(s) == head + tail);
        assert forall|i: int| 0 <= i < escaped(s).len() implies !(#[trigger] escaped(s)[i] == '<'
            || escaped(s)[i] == '>' || escaped(s)[i] == '"' || escaped(s)[i] == '\'') by {
            if i < head.len() {
                assert(escaped(s)[i] == head[i]);
            } else {
                assert(escaped(s)[i] == tail[i - head.len()]);
            }
        }
    }
}

/// `digits` with a comma before every digit that starts a group of three
/// counted from the right: `1234567` becomes `1,234,567`.
pub open spec fn grouped(digits: Seq<char>) -> Seq<char>
    decreases digits.len(),
{
    if digits.len() == 0 {
        Seq::empty()
    } else {
        seq![digits[0]] + (if digits.len() > 1 && (digits.len() - 1) % 3 == 0 {
            seq![',']
        } else {
            Seq::<char>::empty()
        }) + grouped(digits.drop_first())
    }
}

/// `s` with its commas taken out.
pub open spec fn without_commas(s: Seq<char>) -> Seq<char>
    decreases s.len(),
{
    if s.len() == 0 {
        Seq::empty()
    } else {
        (if s[0] == ',' {
            Seq::<char>::empty()
        } else {
            seq![s[0]]
        }) + without_commas(s.drop_first())
    }
}

proof fn lemma_without_commas_append(a: Seq<char>, b: Seq<char>)
    ensures
        without_commas(a + b) == without_commas(a) + without_commas(b),
    decreases a.len(),
{
    if a.len() > 0 {
        assert((a + b).drop_first() =~= a.drop_first() + b);
        lemma_without_commas_append(a.drop_first(), b);
        assert(without_commas(a + b) =~= without_commas(a) + without_commas(b));
    } else {
        assert(a + b =~= b);
    }
}

/// Separators never alter the number: taking the commas out of a grouped
/// run of digits gives the digits back.
pub proof fn law_grouping_preserves_digits(digits: Seq<char>)
    requires
        forall|i: int| 0 <= i < digits.len() ==> #[trigger] digits[i] != ',',
    ensures
        without_commas(grouped(digits)) == digits,
    decreases digits.len(),
{
    if digits.len() > 0 {
        let rest = digits.drop_first();
        assert forall|i: int| 0 <= i < rest.len() implies #[trigger] rest[i] != ',' by {
            assert(rest[i] == digits[i + 1]);
        }
        law_grouping_preserves_digits(rest);
        let sep = if digits.len() > 1 && (digits.len() - 1) % 3 == 0 {
            seq![',']
        } else {
            Seq::<char>::empty()
        };
        lemma_without_commas_append(seq![digits[0]] + sep, grouped(rest));
        lemma_without_commas_append(seq![digits[0]], sep);
        assert(without_commas(seq![digits[0]]) =~= seq![digits[0]]) by {
            assert(seq![digits[0]].drop_first() =~= Seq::<char>::empty());
            reveal_with_fuel(without_commas, 2);
        }
        assert(without_commas(sep) =~= Seq::<char>::empty()) by {
            if sep.len() > 0 {
                assert(sep.drop_first() =~= Seq::<char>::empty());
            }
            reveal_with_fuel(without_commas, 2);
        }
        assert(digits =~= seq![digits[0]] + rest);
    }
}

/// A whole number with thousands separators, as `toLocaleString` writes it
/// for en-US: `12480` becomes `12,480`.
pub fn group_thousands(value: u64) -> (r: String)
    ensures
        r@ == grouped(decimal(value as nat)),
{
    let text = decimal_string(value);
    let digits = chars_of(text.as_str());
    let n = digits.len();
    let mut out = String::new();
    let mut i: usize = 0;
    assert(digits@.subrange(0, n as int) =~= digits@);
    while i < n
        invariant
            digits@ == decimal(value as nat),
            n == digits@.len(),
            i <= n,
            grouped(digits@) == out@ + grouped(digits@.subrange(i as int, n as int)),
        decreases n - i,
    {
        let ghost rest = digits@.subrange(i as int, n as int);
        proof {
            assert(rest.drop_first() =~= digits@.subrange(i as int + 1, n as int));
            assert(rest[0] == digits@[i as int]);
        }
        push_char(&mut out, digits[i]);
        if n - i > 1 && (n - i - 1) % 3 == 0 {
            push_char(&mut out, ',');
        }
        proof {
            let sep = if rest.len() > 1 && (rest.len() - 1) % 3 == 0 {
                seq![',']
            } else {
                Seq::<char>::empty()
            };
            assert(grouped(rest) == seq![rest[0]] + sep + grouped(rest.drop_first()));
        }
        i = i + 1;
    }
    assert(digits@.subrange(n as int, n as int) =~= Seq::<char>::empty());
    out
}

/// The FNV-1a offset basis.
pub open spec fn fnv_offset() -> u64 {
    0xcbf2_9ce4_8422_2325
}

/// One FNV-1a step: fold a byte in, then multiply by the FNV prime, wrapping.
pub open spec fn fnv_step(hash: u64, byte: u8) -> u64 {
    (hash ^ (byte as u64)).wrapping_mul(0x1000_0000_01b3)
}

/// FNV-1a over a run of bytes, starting from `hash`.
pub open spec fn fnv(hash: u64, bytes: Seq<u8>) -> u64
    decreases bytes.len(),
{
    if bytes.len() == 0 {
        hash
    } else {
        fnv_step(fnv(hash, bytes.drop_last()), bytes.last())
    }
}

proof fn lemma_fnv_append(hash: u64, a: Seq<u8>, b: Seq<u8>)
    ensures
        fnv(hash, a + b) == fnv(fnv(hash, a), b),
    decreases b.len(),
{
    if b.len() == 0 {
        assert(a + b =~= a);
    } else {
        assert((a + b).drop_last() =~= a + b.drop_last());
        lemma_fnv_append(hash, a, b.drop_last());
    }
}

/// Folds `bytes` into the running hash.
fn mix(hash: u64, bytes: &[u8]) -> (r: u64)
    ensures
        r == fnv(hash, bytes@),
{
    let mut h = hash;
    let mut i: usize = 0;
    while i < bytes.len()
        invariant
            i <= bytes@.len(),
            h == fnv(hash, bytes@.subrange(0, i as int)),
        decreases bytes@.len() - i,
    {
        proof {
            let prefix = bytes@.subrange(0, i as int + 1);
            assert(prefix.drop_last() =~= bytes@.subrange(0, i as int));
        }
        h = (h ^ bytes[i] as u64).wrapping_mul(0x1000_0000_01b3);
        i = i + 1;
    }
    assert(bytes@.subrange(0, bytes@.len() as int) =~= bytes@);
    h
}

/// The little-endian bytes of a 64-bit pattern.
pub open spec fn le_bytes(x: u64, count: nat) -> Seq<u8> {
    Seq::new(count, |k: int| ((x >> (8 * k) as u64) & 0xff) as u8)
}

/// The first `count` little-endian bytes of `x`.
fn little_endian(x: u64, count: usize) -> (r: Vec<u8>)
    requires
        count <= 8,
    ensures
        r@ == le_bytes(x, count as nat),
{
    let mut out: Vec<u8> = Vec::new();
    let mut k: usize = 0;
    while k < count
        invariant
            k <= count <= 8,
            out@ =~= le_bytes(x, k as nat),
        decreases count - k,
    {
        let shift: u64 = 8 * k as u64;
        out.push(((x >> shift) & 0xff) as u8);
        k = k + 1;
    }
    out
}

/// The bytes a card's appearance hashes over: username, tier name, theme
/// name, the rating's eight little-endian bytes, and the season's four.
pub open spec fn namespace_bytes(
    username: Seq<char>,
    tier: Tier,
    theme: Theme,
    elo: i64,
    season: i32,
) -> Seq<u8> {
    encode_utf8(username) + encode_utf8(tier_name(tier)) + encode_utf8(theme_name(theme)) + le_bytes(
        elo as u64,
        8,
    ) + le_bytes(season as u32 as u64, 4)
}

/// Lower-case hexadecimal digit.
pub open spec fn hex_digit(d: nat) -> char {
    if d < 10 {
        ((d + 48) as u8) as char
    } else {
        ((d + 87) as u8) as char
    }
}

/// Lower-case hexadecimal rendering with no leading zeros, as `{:x}` writes.
pub open spec fn hex(n: nat) -> Seq<char>
    decreases n,
{
    if n < 16 {
        seq![hex_digit(n)]
    } else {
        hex(n / 16).push(hex_digit(n % 16))
    }
}

fn push_hex(s: &mut String, n: u64)
    ensures
        final(s)@ == old(s)@ + hex(n as nat),
    decreases n,
{
    if n >= 16 {
        push_hex(s, n / 16);
    }
    let d = n % 16;
    let c: char = if d < 10 {
        ((d + 48) as u8) as char
    } else {
        ((d + 87) as u8) as char
    };
    push_char(s, c);
    proof {
        if n >= 16 {
            assert(hex(n as nat) == hex((n / 16) as nat).push(hex_digit((n % 16) as nat)));
        }
    }
}

/// The id prefix for a card: `g`, the low 32 bits of the FNV-1a hash of the
/// card's appearance in hex, then `-`.
pub open spec fn namespace_text(
    username: Seq<char>,
    tier: Tier,
    theme: Theme,
    elo: i64,
    season: i32,
) -> Seq<char> {
    "g"@ + hex((fnv(fnv_offset(), namespace_bytes(username, tier, theme, elo, season)) & 0xffff_ffff) as nat)
        + "-"@
}

/// A short id unique to a card's appearance.
///
/// SVG ids are document-global and the first definition wins, so the id
/// covers everything that changes how a card looks: identical cards share
/// ids harmlessly, distinct ones stay apart. The season shown is `season`,
/// or `current_year` for an all-time card.
pub fn card_namespace(
    username: &str,
    tier: Tier,
    theme: Theme,
    elo: i64,
    season: Option<i32>,
    current_year: i32,
) -> (r: String)
    ensures
        r@ == namespace_text(
            username@,
            tier,
            theme,
            elo,
            match season {
                Some(s) => s,
                None => current_year,
            },
        ),
{
    let shown: i32 = match season {
        Some(s) => s,
        None => current_year,
    };
    let elo_bytes = little_endian(elo as u64, 8);
    let season_bytes = little_endian(shown as u32 as u64, 4);
    let mut hash: u64 = 0xcbf2_9ce4_8422_2325;
    hash = mix(hash, username.as_bytes());
    hash = mix(hash, tier.as_str().as_bytes());
    hash = mix(hash, theme.as_str().as_bytes());
    hash = mix(hash, elo_bytes.as_slice());
    hash = mix(hash, season_bytes.as_slice());
    proof {
        let a = encode_utf8(username@);
        let b = encode_utf8(tier_name(tier));
        let c = encode_utf8(theme_name(theme));
        let d = le_bytes(elo as u64, 8);
        let e = le_bytes(shown as u32 as u64, 4);
        lemma_fnv_append(fnv_offset(), a, b);
        lemma_fnv_append(fnv_offset(), a + b, c);
        lemma_fnv_append(fnv_offset(), a + b + c, d);
        lemma_fnv_append(fnv_offset(), a + b + c + d, e);
    }
    let mut out = String::new();
    push_str(&mut out, "g");
    push_hex(&mut out, hash & 0xffff_ffff);
    push_str(&mut out, "-");
    out
}

/// The card's gradient definitions: the background gradient through the
/// palette's two base colours, and the progress bar's gradient through the
/// tier's stops.
pub open spec fn defs_text(
    ns: Seq<char>,
    palette: Palette,
    gradient: (Seq<char>, Seq<char>),
) -> Seq<char> {
    "<defs><linearGradient id=\""@ + ns
        + "bg\" x1=\"0\" y1=\"0\" x2=\"1\" y2=\"1\"><stop offset=\"0%\" stop-color=\""@
        + palette.background_primary@ + "\"/><stop offset=\"50%\" stop-color=\""@
        + palette.background_secondary@ + "\"/><stop offset=\"100%\" stop-color=\""@
        + palette.background_primary@ + "\"/></linearGradient><linearGradient id=\""@ + ns
        + "bar\" x1=\"0\" y1=\"0\" x2=\"1\" y2=\"0\"><stop offset=\"0%\" stop-color=\""@
        + gradient.0 + "\"/><stop offset=\"100%\" stop-color=\""@ + gradient.1
        + "\"/></linearGradient></defs>"@
}

/// The card's gradient definitions, namespaced by `ns`.
pub fn defs(ns: &str, palette: &Palette, gradient: [&str; 2]) -> (r: String)
    ensures
        r@ == defs_text(ns@, *palette, (gradient[0]@, gradient[1]@)),
{
    let mut out = String::new();
    push_str(&mut out, "<defs><linearGradient id=\"");
    push_str(&mut out, ns);
    push_str(&mut out, "bg\" x1=\"0\" y1=\"0\" x2=\"1\" y2=\"1\"><stop offset=\"0%\" stop-color=\"");
    push_str(&mut out, palette.background_primary);
    push_str(&mut out, "\"/><stop offset=\"50%\" stop-color=\"");
    push_str(&mut out, palette.background_secondary);
    push_str(&mut out, "\"/><stop offset=\"100%\" stop-color=\"");
    push_str(&mut out, palette.background_primary);
    push_str(&mut out, "\"/></linearGradient><linearGradient id=\"");
    push_str(&mut out, ns);
    push_str(&mut out, "bar\" x1=\"0\" y1=\"0\" x2=\"1\" y2=\"0\"><stop offset=\"0%\" stop-color=\"");
    push_str(&mut out, gradient[0]);
    push_str(&mut out, "\"/><stop offset=\"100%\" stop-color=\"");
    push_str(&mut out, gradient[1]);
    push_str(&mut out, "\"/></linearGradient></defs>");
    out
}

/// The card's rounded frame: a 494x169 rectangle offset half a unit, filled
/// with the namespaced background gradient — or with nothing on a
/// transparent palette — and stroked with the border colour.
pub open spec fn background_text(ns: Seq<char>, palette: Palette) -> Seq<char> {
    let fill = if palette.background_primary@ == transparent_text() {
        "none"@
    } else {
        "url(#"@ + ns + "bg)"@
    };
    "<rect x=\"0.5\" y=\"0.5\" width=\"494\" height=\"169\" rx=\"16\" fill=\""@ + fill
        + "\" stroke=\""@ + palette.border@ + "\" stroke-width=\"1\"/>"@
}

/// The card's background frame, namespaced by `ns`.
pub fn background(ns: &str, palette: &Palette) -> (r: String)
    ensures
        r@ == background_text(ns@, *palette),
{
    let mut out = String::new();
    push_str(&mut out, "<rect x=\"0.5\" y=\"0.5\" width=\"494\" height=\"169\" rx=\"16\" fill=\"");
    if palette.is_transparent() {
        push_str(&mut out, "none");
    } else {
        push_str(&mut out, "url(#");
        push_str(&mut out, ns);
        push_str(&mut out, "bg)");
    }
    push_str(&mut out, "\" stroke=\"");
    push_str(&mut out, palette.border);
    push_str(&mut out, "\" stroke-width=\"1\"/>");
    out
}

/// A text occurs in any text built around it.
proof fn lemma_occurs_between(x: Seq<char>, p: Seq<char>, y: Seq<char>)
    ensures
        occurs_in(x + p + y, p),
{
    let s = x + p + y;
    assert(s.subrange(x.len() as int, (x.len() + p.len()) as int) =~= p);
}

/// The gradients a card paints with are defined under the card's own
/// namespace: the definitions carry `id="<ns>bg"` and `id="<ns>bar"`, the ids
/// the background frame and the progress bar refer to, so two cards on one
/// page never share a gradient. A painted background refers to its gradient
/// by that same id.
pub proof fn law_defs_define_namespaced_gradients(
    ns: Seq<char>,
    palette: Palette,
    gradient: (Seq<char>, Seq<char>),
)
    ensures
        occurs_in(defs_text(ns, palette, gradient), "id=\""@ + ns + "bg\""@),
        occurs_in(defs_text(ns, palette, gradient), "id=\""@ + ns + "bar\""@),
        palette.background_primary@ != transparent_text() ==> occurs_in(
            background_text(ns, palette),
            "url(#"@ + ns + "bg)"@,
        ),
{
    let bp = palette.background_primary@;
    let bs = palette.background_secondary@;
    let l0 = "<defs><linearGradient id=\""@;
    let l0a = "<defs><linearGradient "@;
    let l1 = "bg\" x1=\"0\" y1=\"0\" x2=\"1\" y2=\"1\"><stop offset=\"0%\" stop-color=\""@;
    let l1b = " x1=\"0\" y1=\"0\" x2=\"1\" y2=\"1\"><stop offset=\"0%\" stop-color=\""@;
    let l2 = "\"/><stop offset=\"50%\" stop-color=\""@;
    let l3 = "\"/><stop offset=\"100%\" stop-color=\""@;
    let l4 = "\"/></linearGradient><linearGradient id=\""@;
    let l4a = "\"/></linearGradient><linearGradient "@;
    let l5 = "bar\" x1=\"0\" y1=\"0\" x2=\"1\" y2=\"0\"><stop offset=\"0%\" stop-color=\""@;
    let l5b = " x1=\"0\" y1=\"0\" x2=\"1\" y2=\"0\"><stop offset=\"0%\" stop-color=\""@;
    let l6 = "\"/><stop offset=\"100%\" stop-color=\""@;
    let l7 = "\"/></linearGradient></defs>"@;
    let id = "id=\""@;
    let bg = "bg\""@;
    let bar = "bar\""@;
    reveal_strlit("<defs><linearGradient id=\"");
    reveal_strlit("<defs><linearGradient ");
    reveal_strlit("bg\" x1=\"0\" y1=\"0\" x2=\"1\" y2=\"1\"><stop offset=\"0%\" stop-color=\"");
    reveal_strlit(" x1=\"0\" y1=\"0\" x2=\"1\" y2=\"1\"><stop offset=\"0%\" stop-color=\"");
    reveal_strlit("\"/></linearGradient><linearGradient id=\"");
    reveal_strlit("\"/></linearGradient><linearGradient ");
    reveal_strlit("bar\" x1=\"0\" y1=\"0\" x2=\"1\" y2=\"0\"><stop offset=\"0%\" stop-color=\"");
    reveal_strlit(" x1=\"0\" y1=\"0\" x2=\"1\" y2=\"0\"><stop offset=\"0%\" stop-color=\"");
    reveal_strlit("id=\"");
    reveal_strlit("bg\"");
    reveal_strlit("bar\"");
    assert(l0 =~= l0a + id);
    assert(l1 =~= bg + l1b);
    assert(l4 =~= l4a + id);
    assert(l5 =~= bar + l5b);
    let d = defs_text(ns, palette, gradient);
    let tail = l2 + bs + l3 + bp + l4 + ns + l5 + gradient.0 + l6 + gradient.1 + l7;
    assert(d =~= l0a + (id + ns + bg) + (l1b + bp + tail));
    lemma_occurs_between(l0a, id + ns + bg, l1b + bp + tail);
    let head = l0 + ns + l1 + bp + l2 + bs + l3 + bp + l4a;
    let rest = l5b + gradient.0 + l6 + gradient.1 + l7;
    assert(d =~= head + (id + ns + bar) + rest);
    lemma_occurs_between(head, id + ns + bar, rest);
    if bp != transparent_text() {
        let pre = "<rect x=\"0.5\" y=\"0.5\" width=\"494\" height=\"169\" rx=\"16\" fill=\""@;
        let post = "\" stroke=\""@ + palette.border@ + "\" stroke-width=\"1\"/>"@;
        assert(background_text(ns, palette) =~= pre + ("url(#"@ + ns + "bg)"@) + post);
        lemma_occurs_between(pre, "url(#"@ + ns + "bg)"@, post);
    }
}

} // verus!
