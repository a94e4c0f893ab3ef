//! Text building blocks: decimal rendering and character-level helpers.

use vstd::prelude::*;

verus! {

/// The ASCII digit for `d`, which must be below ten.
pub open spec fn digit_char(d: nat) -> char {
    if d == 0 { '0' }
    else if d == 1 { '1' }
    else if d == 2 { '2' }
    else if d == 3 { '3' }
    else if d == 4 { '4' }
    else if d == 5 { '5' }
    else if d == 6 { '6' }
    else if d == 7 { '7' }
    else if d == 8 { '8' }
    else { '9' }
}

/// Base-ten rendering of a natural number, most significant digit first,
/// with no leading zeros (zero itself is `"0"`).
pub open spec fn decimal(n: nat) -> Seq<char>
    decreases n,
{
    if n < 10 {
        seq![digit_char(n)]
    } else {
        decimal(n / 10).push(digit_char(n % 10))
    }
}

/// Base-ten rendering of an integer, with a leading `-` when negative.
pub open spec fn signed_decimal(i: int) -> Seq<char> {
    if i < 0 {
        seq!['-'] + decimal((-i) as nat)
    } else {
        decimal(i as nat)
    }
}

/// Appends one character: `String::push`.
#[verifier::external_body]
pub fn push_char(s: &mut String, c: char)
    ensures
        final(s)@ == old(s)@.push(c),
{
    s.push(c);
}

/// Appends a string slice.
pub fn push_str(s: &mut String, t: &str)
    ensures
        final(s)@ == old(s)@ + t@,
{
    s.append(t);
}

/// The digit character for `d`.
pub fn digit(d: u64) -> (c: char)
    requires
        d < 10,
    ensures
        c == digit_char(d as nat),
{
    if d == 0 { '0' }
    else if d == 1 { '1' }
    else if d == 2 { '2' }
    else if d == 3 { '3' }
    else if d == 4 { '4' }
    else if d == 5 { '5' }
    else if d == 6 { '6' }
    else if d == 7 { '7' }
    else if d == 8 { '8' }
    else { '9' }
}

/// Appends the decimal rendering of `n`.
pub fn push_decimal(s: &mut String, n: u64)
    ensures
        final(s)@ == old(s)@ + decimal(n as nat),
    decreases n,
{
    if n >= 10 {
        push_decimal(s, n / 10);
    }
    push_char(s, digit(n % 10));
    proof {
        if n >= 10 {
            assert(decimal(n as nat) == decimal((n / 10) as nat).push(digit_char((n % 10) as nat)));
        }
    }
}

/// Appends the decimal rendering of a signed integer.
pub fn push_signed(s: &mut String, n: i64)
    ensures
        final(s)@ == old(s)@ + signed_decimal(n as int),
{
    if n < 0 {
        push_char(s, '-');
        let magnitude: u64 = (0i128 - n as i128) as u64;
        push_decimal(s, magnitude);
    } else {
        push_decimal(s, n as u64);
    }
}

/// The decimal rendering of `n` as a fresh string.
pub fn decimal_string(n: u64) -> (r: String)
    ensures
        r@ == decimal(n as nat),
{
    let mut r = String::new();
    push_decimal(&mut r, n);
    r
}

/// The characters of a string slice, in order.
pub fn chars_of(s: &str) -> (v: Vec<char>)
    ensures
        v@ == s@,
{
    let mut v: Vec<char> = Vec::new();
    for c in it: s.chars()
        invariant
            v@ == it.seq().take(it.index() as int),
    {
        v.push(c);
    }
    v
}

/// Unicode `White_Space`: the characters `char::is_whitespace` accepts.
pub open spec fn is_white_space(c: char) -> bool {
    let u = c as u32;
    (0x09 <= u <= 0x0D) || u == 0x20 || u == 0x85 || u == 0xA0 || u == 0x1680 || (0x2000 <= u
        <= 0x200A) || u == 0x2028 || u == 0x2029 || u == 0x202F || u == 0x205F || u == 0x3000
}

/// Whether `c` is Unicode white space.
pub fn white_space(c: char) -> (r: bool)
    ensures
        r == is_white_space(c),
{
    let u = c as u32;
    (0x09 <= u && u <= 0x0D) || u == 0x20 || u == 0x85 || u == 0xA0 || u == 0x1680 || (0x2000 <= u
        && u <= 0x200A) || u == 0x2028 || u == 0x2029 || u == 0x202F || u == 0x205F || u == 0x3000
}

/// `s` without its leading white space.
pub open spec fn trim_start_chars(s: Seq<char>) -> Seq<char>
    decreases s.len(),
{
    if s.len() > 0 && is_white_space(s[0]) {
        trim_start_chars(s.drop_first())
    } else {
        s
    }
}

/// `s` without its trailing white space.
pub open spec fn trim_end_chars(s: Seq<char>) -> Seq<char>
    decreases s.len(),
{
    if s.len() > 0 && is_white_space(s.last()) {
        trim_end_chars(s.drop_last())
    } else {
        s
    }
}

/// `s` without leading or trailing white space, as `str::trim` returns it.
pub open spec fn trimmed(s: Seq<char>) -> Seq<char> {
    trim_end_chars(trim_start_chars(s))
}

/// Appends the characters `v[from..to]`.
pub fn push_chars(out: &mut String, v: &Vec<char>, from: usize, to: usize)
    requires
        from <= to <= v@.len(),
    ensures
        final(out)@ == old(out)@ + v@.subrange(from as int, to as int),
{
    let mut k = from;
    while k < to
        invariant
            from <= k <= to <= v@.len(),
            out@ == old(out)@ + v@.subrange(from as int, k as int),
        decreases to - k,
    {
        push_char(out, v[k]);
        proof {
            assert(v@.subrange(from as int, k as int + 1) =~= v@.subrange(from as int, k as int).push(v@[k as int]));
        }
        k = k + 1;
    }
}

/// A copy of `s` without leading or trailing white space.
pub fn trim(s: &str) -> (r: String)
    ensures
        r@ == trimmed(s@),
{
    let v = chars_of(s);
    let n = v.len();
    let mut start: usize = 0;
    assert(v@.subrange(0, n as int) =~= v@);
    while start < n && white_space(v[start])
        invariant
            start <= n == v@.len(),
            trim_start_chars(v@) == trim_start_chars(v@.subrange(start as int, n as int)),
        decreases n - start,
    {
        proof {
            let rest = v@.subrange(start as int, n as int);
            assert(rest.drop_first() =~= v@.subrange(start as int + 1, n as int));
        }
        start = start + 1;
    }
    let ghost head = v@.subrange(start as int, n as int);
    assert(trim_start_chars(v@) == head);
    let mut end: usize = n;
    while end > start && white_space(v[end - 1])
        invariant
            start <= end <= n == v@.len(),
            head == v@.subrange(start as int, n as int),
            trim_end_chars(head) == trim_end_chars(v@.subrange(start as int, end as int)),
        decreases end,
    {
        proof {
            let part = v@.subrange(start as int, end as int);
            assert(part.drop_last() =~= v@.subrange(start as int, end as int - 1));
        }
        end = end - 1;
    }
    let mut out = String::new();
    push_chars(&mut out, &v, start, end);
    assert(out@ =~= v@.subrange(start as int, end as int));
    out
}

/// An ASCII decimal digit.
pub open spec fn is_digit_byte(b: u8) -> bool {
    48 <= b <= 57
}

/// Every byte is a decimal digit.
pub open spec fn all_digits(s: Seq<u8>) -> bool {
    forall|i: int| 0 <= i < s.len() ==> is_digit_byte(#[trigger] s[i])
}

/// The value of a run of decimal digits, most significant first.
pub open spec fn digits_value(s: Seq<u8>) -> int
    decreases s.len(),
{
    if s.len() == 0 {
        0
    } else {
        digits_value(s.drop_last()) * 10 + (s.last() - 48)
    }
}

/// An optional `+` or `-` followed by one or more decimal digits, as the
/// standard library's integer `from_str` reads it (before the range check).
pub open spec fn parse_integer(s: Seq<u8>) -> Option<int> {
    if s.len() > 0 && (s[0] == 43u8 || s[0] == 45u8) {
        let body = s.drop_first();
        if body.len() > 0 && all_digits(body) {
            Some(
                if s[0] == 45u8 {
                    -digits_value(body)
                } else {
                    digits_value(body)
                },
            )
        } else {
            None
        }
    } else if s.len() > 0 && all_digits(s) {
        Some(digits_value(s))
    } else {
        None
    }
}

/// `i64::from_str` on the bytes `s`.
pub open spec fn parse_i64_bytes(s: Seq<u8>) -> Option<i64> {
    match parse_integer(s) {
        Some(v) => if i64::MIN <= v <= i64::MAX {
            Some(v as i64)
        } else {
            None
        },
        None => None,
    }
}

/// `i32::from_str` on the bytes `s`.
pub open spec fn parse_i32_bytes(s: Seq<u8>) -> Option<i32> {
    match parse_integer(s) {
        Some(v) => if i32::MIN <= v <= i32::MAX {
            Some(v as i32)
        } else {
            None
        },
        None => None,
    }
}

proof fn lemma_digits_value_nonneg(s: Seq<u8>)
    requires
        all_digits(s),
    ensures
        digits_value(s) >= 0,
    decreases s.len(),
{
    if s.len() > 0 {
        assert(all_digits(s.drop_last())) by {
            assert forall|i: int| 0 <= i < s.drop_last().len() implies is_digit_byte(#[trigger] s.drop_last()[i]) by {
                assert(s.drop_last()[i] == s[i]);
            }
        }
        lemma_digits_value_nonneg(s.drop_last());
        assert(is_digit_byte(s[s.len() - 1]));
    }
}

/// `10^e`.
pub open spec fn ten_pow(e: nat) -> nat
    decreases e,
{
    if e == 0 { 1 } else { 10 * ten_pow((e - 1) as nat) }
}

/// Powers of ten are positive.
pub proof fn lemma_ten_pow_positive(e: nat)
    ensures
        ten_pow(e) >= 1,
    decreases e,
{
    if e > 0 {
        lemma_ten_pow_positive((e - 1) as nat);
    }
}

proof fn lemma_digits_value_below(s: Seq<u8>)
    requires
        all_digits(s),
    ensures
        0 <= digits_value(s) < ten_pow(s.len()),
    decreases s.len(),
{
    if s.len() > 0 {
        let init = s.drop_last();
        assert(all_digits(init)) by {
            assert forall|i: int| 0 <= i < init.len() implies is_digit_byte(#[trigger] init[i]) by {
                assert(init[i] == s[i]);
            }
        }
        lemma_digits_value_below(init);
        assert(is_digit_byte(s[s.len() - 1]));
        let v = digits_value(init);
        let d = s.last() - 48;
        let t = ten_pow(init.len());
        assert(v * 10 + d < 10 * t) by (nonlinear_arith)
            requires
                0 <= v < t,
                0 <= d <= 9,
        ;
    }
}

/// A reading of `n` bytes lies strictly between `-10^(n-1)` and `10^n`: a
/// sign takes one of the bytes.
pub proof fn lemma_parse_integer_bounds(s: Seq<u8>)
    ensures
        parse_integer(s) matches Some(v) ==> -(ten_pow((s.len() - 1) as nat) as int) < v && v < ten_pow(
            s.len(),
        ),
{
    if s.len() > 0 {
        if s[0] == 43u8 || s[0] == 45u8 {
            let body = s.drop_first();
            if body.len() > 0 && all_digits(body) {
                lemma_digits_value_below(body);
                assert(ten_pow(s.len()) == 10 * ten_pow(body.len()));
            }
        } else if all_digits(s) {
            lemma_digits_value_below(s);
        }
    }
}

/// Reads `s[lo..hi]` as a signed 64-bit decimal integer.
pub fn parse_i64(s: &[u8], lo: usize, hi: usize) -> (r: Option<i64>)
    requires
        lo <= hi <= s@.len(),
    ensures
        r == parse_i64_bytes(s@.subrange(lo as int, hi as int)),
{
    let ghost whole = s@.subrange(lo as int, hi as int);
    if lo == hi {
        return None;
    }
    let first = s[lo];
    let negative = first == 45u8;
    let signed = first == 43u8 || negative;
    let start = if signed { lo + 1 } else { lo };
    if start == hi {
        return None;
    }
    let ghost body = s@.subrange(start as int, hi as int);
    proof {
        if signed {
            assert(whole.drop_first() =~= body);
        } else {
            assert(whole =~= body);
        }
    }
    let cap: i128 = 9223372036854775809;
    let mut acc: i128 = 0;
    let mut i = start;
    while i < hi
        invariant
            lo <= start <= i <= hi <= s@.len(),
            body == s@.subrange(start as int, hi as int),
            whole == s@.subrange(lo as int, hi as int),
            signed ==> whole.drop_first() == body,
            !signed ==> whole == body,
            signed == (whole[0] == 43u8 || whole[0] == 45u8),
            negative == (whole[0] == 45u8),
            whole.len() > 0,
            all_digits(s@.subrange(start as int, i as int)),
            cap == 9223372036854775809,
            acc == (if digits_value(s@.subrange(start as int, i as int)) < cap {
                digits_value(s@.subrange(start as int, i as int))
            } else {
                cap as int
            }),
        decreases hi - i,
    {
        let b = s[i];
        if b < 48u8 || b > 57u8 {
            proof {
                assert(body[i - start] == b);
                assert(!is_digit_byte(body[i - start]));
                assert(!all_digits(body));
            }
            return None;
        }
        let ghost prefix = s@.subrange(start as int, i as int + 1);
        proof {
            assert(prefix.drop_last() =~= s@.subrange(start as int, i as int));
            assert(prefix.last() == b);
            assert(all_digits(prefix)) by {
                assert forall|k: int| 0 <= k < prefix.len() implies is_digit_byte(#[trigger] prefix[k]) by {
                    if k < prefix.len() - 1 {
                        assert(prefix[k] == s@.subrange(start as int, i as int)[k]);
                    }
                }
            }
            lemma_digits_value_nonneg(s@.subrange(start as int, i as int));
            let v = digits_value(s@.subrange(start as int, i as int));
            let d = (b - 48) as int;
            assert(digits_value(prefix) == v * 10 + d);
            assert((if v < cap { v } else { cap as int }) * 10 + d >= cap <==> v * 10 + d >= cap)
                by (nonlinear_arith)
                requires
                    v >= 0,
                    0 <= d <= 9,
                    cap > 0,
            ;
        }
        acc = acc * 10 + (b - 48u8) as i128;
        if acc > cap {
            acc = cap;
        }
        i = i + 1;
    }
    assert(s@.subrange(start as int, hi as int) =~= body);
    proof {
        lemma_digits_value_nonneg(body);
    }
    if negative {
        if acc <= 9223372036854775808 {
            Some((0 - acc) as i64)
        } else {
            None
        }
    } else {
        if acc <= 9223372036854775807 {
            Some(acc as i64)
        } else {
            None
        }
    }
}

/// `u64::from_str` on the bytes `s`: like the signed reading, but a leading
/// `-` is refused outright.
pub open spec fn parse_u64_bytes(s: Seq<u8>) -> Option<u64> {
    if s.len() > 0 && s[0] == 45u8 {
        None
    } else {
        match parse_integer(s) {
            Some(v) => if 0 <= v <= u64::MAX {
                Some(v as u64)
            } else {
                None
            },
            None => None,
        }
    }
}

/// Reads `s[lo..hi]` as an unsigned 64-bit decimal integer.
pub fn parse_u64(s: &[u8], lo: usize, hi: usize) -> (r: Option<u64>)
    requires
        lo <= hi <= s@.len(),
    ensures
        r == parse_u64_bytes(s@.subrange(lo as int, hi as int)),
{
    let ghost whole = s@.subrange(lo as int, hi as int);
    if lo == hi {
        return None;
    }
    let first = s[lo];
    if first == 45u8 {
        return None;
    }
    let signed = first == 43u8;
    let start = if signed { lo + 1 } else { lo };
    if start == hi {
        return None;
    }
    let ghost body = s@.subrange(start as int, hi as int);
    proof {
        if signed {
            assert(whole.drop_first() =~= body);
        } else {
            assert(whole =~= body);
        }
    }
    let cap: i128 = 18446744073709551616;
    let mut acc: i128 = 0;
    let mut i = start;
    while i < hi
        invariant
            lo <= start <= i <= hi <= s@.len(),
            body == s@.subrange(start as int, hi as int),
            whole == s@.subrange(lo as int, hi as int),
            signed ==> whole.drop_first() == body,
            !signed ==> whole == body,
            signed == (whole[0] == 43u8),
            whole[0] != 45u8,
            whole.len() > 0,
            all_digits(s@.subrange(start as int, i as int)),
            cap == 18446744073709551616,
            acc == (if digits_value(s@.subrange(start as int, i as int)) < cap {
                digits_value(s@.subrange(start as int, i as int))
            } else {
                cap as int
            }),
        decreases hi - i,
    {
        let b = s[i];
        if b < 48u8 || b > 57u8 {
            proof {
                assert(body[i - start] == b);
                assert(!is_digit_byte(body[i - start]));
                assert(!all_digits(body));
            }
            return None;
        }
        let ghost prefix = s@.subrange(start as int, i as int + 1);
        proof {
            assert(prefix.drop_last() =~= s@.subrange(start as int, i as int));
            assert(prefix.last() == b);
            assert(all_digits(prefix)) by {
                assert forall|k: int| 0 <= k < prefix.len() implies is_digit_byte(#[trigger] prefix[k]) by {
                    if k < prefix.len() - 1 {
                        assert(prefix[k] == s@.subrange(start as int, i as int)[k]);
                    }
                }
            }
            lemma_digits_value_nonneg(s@.subrange(start as int, i as int));
            let v = digits_value(s@.subrange(start as int, i as int));
            let d = (b - 48) as int;
            assert(digits_value(prefix) == v * 10 + d);
            assert((if v < cap { v } else { cap as int }) * 10 + d >= cap <==> v * 10 + d >= cap)
                by (nonlinear_arith)
                requires
                    v >= 0,
                    0 <= d <= 9,
                    cap > 0,
            ;
        }
        acc = acc * 10 + (b - 48u8) as i128;
        if acc > cap {
            acc = cap;
        }
        i = i + 1;
    }
    assert(s@.subrange(start as int, hi as int) =~= body);
    proof {
        lemma_digits_value_nonneg(body);
    }
    if acc <= 18446744073709551615 {
        Some(acc as u64)
    } else {
        None
    }
}

/// Reads `s[lo..hi]` as a signed 32-bit decimal integer.
pub fn parse_i32(s: &[u8], lo: usize, hi: usize) -> (r: Option<i32>)
    requires
        lo <= hi <= s@.len(),
    ensures
        r == parse_i32_bytes(s@.subrange(lo as int, hi as int)),
{
    match parse_i64(s, lo, hi) {
        Some(v) => if -2147483648 <= v && v <= 2147483647 {
            Some(v as i32)
        } else {
            None
        },
        None => None,
    }
}

/// Whether two string slices hold the same text.
pub fn same_text(a: &str, b: &str) -> (r: bool)
    ensures
        r == (a@ == b@),
{
    let x = chars_of(a);
    let y = chars_of(b);
    if x.len() != y.len() {
        return false;
    }
    let mut i: usize = 0;
    while i < x.len()
        invariant
            x@ == a@,
            y@ == b@,
            x@.len() == y@.len(),
            i <= x@.len(),
            forall|k: int| 0 <= k < i ==> x@[k] == y@[k],
        decreases x@.len() - i,
    {
        if x[i] != y[i] {
            return false;
        }
        i = i + 1;
    }
    assert(x@ =~= y@);
    true
}

/// Every non-overlapping occurrence of `pat` in `s`, scanning from the left,
/// replaced by `rep`: what `str::replace` computes for a non-empty pattern.
pub open spec fn replace_all(s: Seq<char>, pat: Seq<char>, rep: Seq<char>) -> Seq<char>
    decreases s.len(),
{
    if pat.len() == 0 || s.len() < pat.len() {
        s
    } else if s.subrange(0, pat.len() as int) == pat {
        rep + replace_all(s.subrange(pat.len() as int, s.len() as int), pat, rep)
    } else {
        seq![s[0]] + replace_all(s.drop_first(), pat, rep)
    }
}

/// Whether `pat` occurs in `v` starting at `i`.
fn occurs_at(v: &Vec<char>, i: usize, pat: &Vec<char>) -> (r: bool)
    requires
        i <= v@.len(),
    ensures
        r == (i + pat@.len() <= v@.len() && v@.subrange(i as int, i + pat@.len()) == pat@),
{
    if pat.len() > v.len() - i {
        return false;
    }
    let mut k: usize = 0;
    let vl = v.len();
    while k < pat.len()
        invariant
            vl == v@.len(),
            i + pat@.len() <= v@.len(),
            k <= pat@.len(),
            forall|j: int| 0 <= j < k ==> v@[i + j] == pat@[j],
        decreases pat@.len() - k,
    {
        if v[i + k] != pat[k] {
            assert(v@.subrange(i as int, i + pat@.len())[k as int] != pat@[k as int]);
            return false;
        }
        k = k + 1;
    }
    assert(v@.subrange(i as int, i + pat@.len()) =~= pat@);
    true
}

/// A copy of `s` with every occurrence of `pat` replaced by `rep`.
pub fn replace(s: &str, pat: &str, rep: &str) -> (r: String)
    requires
        pat@.len() > 0,
    ensures
        r@ == replace_all(s@, pat@, rep@),
{
    let v = chars_of(s);
    let p = chars_of(pat);
    let n = v.len();
    let mut out = String::new();
    let mut i: usize = 0;
    assert(v@.subrange(0, n as int) =~= v@);
    while i < n
        invariant
            v@ == s@,
            p@ == pat@,
            p@.len() > 0,
            n == v@.len(),
            i <= n,
            replace_all(s@, pat@, rep@) == out@ + replace_all(v@.subrange(i as int, n as int), pat@, rep@),
        decreases n - i,
    {
        let ghost rest = v@.subrange(i as int, n as int);
        if occurs_at(&v, i, &p) {
            proof {
                assert(rest.subrange(0, p@.len() as int) =~= v@.subrange(i as int, i + p@.len()));
                assert(rest.subrange(p@.len() as int, rest.len() as int) =~= v@.subrange(i + p@.len(), n as int));
            }
            push_str(&mut out, rep);
            i = i + p.len();
        } else {
            proof {
                if rest.len() >= p@.len() {
                    assert(rest.subrange(0, p@.len() as int) =~= v@.subrange(i as int, i + p@.len()));
                }
                assert(rest.drop_first() =~= v@.subrange(i as int + 1, n as int));
                assert(seq![rest[0]] + replace_all(rest.drop_first(), pat@, rep@) == seq![v@[i as int]] + replace_all(rest.drop_first(), pat@, rep@));
            }
            push_char(&mut out, v[i]);
            i = i + 1;
        }
    }
    assert(v@.subrange(n as int, n as int) =~= Seq::<char>::empty());
    out
}


/// `pat` occurs somewhere in `s`.
pub open spec fn occurs_in(s: Seq<char>, pat: Seq<char>) -> bool {
    exists|i: int| 0 <= i && i + pat.len() <= s.len() && #[trigger] s.subrange(i, i + pat.len()) == pat
}

/// No character of `a` occurs in `b`.
pub open spec fn disjoint_chars(a: Seq<char>, b: Seq<char>) -> bool {
    forall|i: int, j: int| 0 <= i < a.len() && 0 <= j < b.len() ==> a[i] != b[j]
}

/// A prefix of a replacement's result that holds none of the replacement's
/// characters was copied unchanged from the input.
proof fn lemma_replacement_free_prefix(t: Seq<char>, pat: Seq<char>, rep: Seq<char>, k: int)
    requires
        pat.len() > 0,
        rep.len() > 0,
        0 <= k <= replace_all(t, pat, rep).len(),
        forall|j: int, r: int| 0 <= j < k && 0 <= r < rep.len() ==> replace_all(t, pat, rep)[j] != rep[r],
    ensures
        k <= t.len(),
        t.subrange(0, k) == replace_all(t, pat, rep).subrange(0, k),
    decreases t.len(),
{
    let out = replace_all(t, pat, rep);
    if k == 0 {
        assert(t.subrange(0, 0) =~= out.subrange(0, 0));
    } else if t.len() < pat.len() {
        assert(out == t);
    } else if t.subrange(0, pat.len() as int) == pat {
        assert(out[0] == rep[0]);
    } else {
        let tail = replace_all(t.drop_first(), pat, rep);
        assert(out == seq![t[0]] + tail);
        assert forall|j: int, r: int| 0 <= j < k - 1 && 0 <= r < rep.len() implies tail[j] != rep[r] by {
            assert(tail[j] == out[j + 1]);
        }
        lemma_replacement_free_prefix(t.drop_first(), pat, rep, k - 1);
        assert(t.subrange(0, k) =~= seq![t[0]] + t.drop_first().subrange(0, k - 1));
        assert(out.subrange(0, k) =~= seq![t[0]] + tail.subrange(0, k - 1));
    }
}

/// Replacing every occurrence of `pat` by a non-empty `rep` that shares no
/// character with it leaves no occurrence of `pat` behind.
pub proof fn law_replacement_leaves_no_pattern(s: Seq<char>, pat: Seq<char>, rep: Seq<char>)
    requires
        pat.len() > 0,
        rep.len() > 0,
        disjoint_chars(pat, rep),
    ensures
        !occurs_in(replace_all(s, pat, rep), pat),
    decreases s.len(),
{
    let out = replace_all(s, pat, rep);
    let m = pat.len() as int;
    if s.len() < pat.len() {
        assert(out == s);
        if occurs_in(out, pat) {
            let i = choose|i: int| 0 <= i && i + m <= out.len() && #[trigger] out.subrange(i, i + m) == pat;
            assert(false);
        }
    } else if s.subrange(0, m) == pat {
        let tail = replace_all(s.subrange(m, s.len() as int), pat, rep);
        law_replacement_leaves_no_pattern(s.subrange(m, s.len() as int), pat, rep);
        assert(out == rep + tail);
        if occurs_in(out, pat) {
            let i = choose|i: int| 0 <= i && i + m <= out.len() && #[trigger] out.subrange(i, i + m) == pat;
            if i < rep.len() {
                assert(out.subrange(i, i + m)[0] == out[i]);
                assert(out[i] == rep[i]);
                assert(pat[0] != rep[i]);
            } else {
                let k = i - rep.len();
                assert(tail.subrange(k, k + m) =~= out.subrange(i, i + m));
                assert(occurs_in(tail, pat));
            }
        }
    } else {
        let rest = s.drop_first();
        let tail = replace_all(rest, pat, rep);
        law_replacement_leaves_no_pattern(rest, pat, rep);
        assert(out == seq![s[0]] + tail);
        if occurs_in(out, pat) {
            let i = choose|i: int| 0 <= i && i + m <= out.len() && #[trigger] out.subrange(i, i + m) == pat;
            if i > 0 {
                assert(tail.subrange(i - 1, i - 1 + m) =~= out.subrange(i, i + m));
                assert(occurs_in(tail, pat));
            } else {
                assert forall|j: int, r: int| 0 <= j < m - 1 && 0 <= r < rep.len() implies tail[j] != rep[r] by {
                    assert(tail[j] == out[j + 1]);
                    assert(out[j + 1] == out.subrange(0, m)[j + 1]);
                    assert(pat[j + 1] != rep[r]);
                }
                lemma_replacement_free_prefix(rest, pat, rep, m - 1);
                assert(s.subrange(0, m) =~= seq![s[0]] + rest.subrange(0, m - 1));
                assert(out.subrange(0, m) =~= seq![s[0]] + tail.subrange(0, m - 1));
            }
        }
    }
}


/// Every character of a decimal rendering is an ASCII digit, and there is
/// at least one.
pub proof fn lemma_decimal_digits(n: nat)
    ensures
        decimal(n).len() >= 1,
        n >= 10 ==> decimal(n).len() >= 2,
        forall|i: int| 0 <= i < decimal(n).len() ==> '0' <= #[trigger] decimal(n)[i] <= '9',
    decreases n,
{
    if n >= 10 {
        lemma_decimal_digits(n / 10);
        let d = decimal(n);
        assert(d == decimal(n / 10).push(digit_char(n % 10)));
        assert forall|i: int| 0 <= i < d.len() implies '0' <= #[trigger] d[i] <= '9' by {
            if i < d.len() - 1 {
                assert(d[i] == decimal(n / 10)[i]);
            }
        }
    }
}

/// Distinct numbers have distinct decimal renderings.
pub proof fn lemma_decimal_injective(a: nat, b: nat)
    requires
        decimal(a) == decimal(b),
    ensures
        a == b,
    decreases a,
{
    lemma_decimal_digits(a);
    lemma_decimal_digits(b);
    if a < 10 && b < 10 {
        assert(decimal(a)[0] == digit_char(a));
        assert(decimal(b)[0] == digit_char(b));
    } else if a >= 10 && b >= 10 {
        let da = decimal(a);
        let db = decimal(b);
        assert(da == decimal(a / 10).push(digit_char(a % 10)));
        assert(db == decimal(b / 10).push(digit_char(b % 10)));
        assert(da.last() == digit_char(a % 10));
        assert(db.last() == digit_char(b % 10));
        assert(da.drop_last() =~= decimal(a / 10));
        assert(db.drop_last() =~= decimal(b / 10));
        lemma_decimal_injective(a / 10, b / 10);
    }
}

/// Distinct integers have distinct signed renderings.
pub proof fn lemma_signed_decimal_injective(a: int, b: int)
    requires
        signed_decimal(a) == signed_decimal(b),
    ensures
        a == b,
{
    reveal_strlit("-");
    if a < 0 && b < 0 {
        assert(signed_decimal(a).drop_first() =~= decimal((-a) as nat));
        assert(signed_decimal(b).drop_first() =~= decimal((-b) as nat));
        lemma_decimal_injective((-a) as nat, (-b) as nat);
    } else if a >= 0 && b >= 0 {
        lemma_decimal_injective(a as nat, b as nat);
    } else if a < 0 {
        lemma_decimal_digits(b as nat);
        assert(signed_decimal(a)[0] == '-');
        assert(signed_decimal(b)[0] == decimal(b as nat)[0]);
    } else {
        lemma_decimal_digits(a as nat);
        assert(signed_decimal(b)[0] == '-');
        assert(signed_decimal(a)[0] == decimal(a as nat)[0]);
    }
}

} // verus!
