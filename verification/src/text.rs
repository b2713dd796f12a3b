//! Character-level text helpers shared by the parsers and label builders:
//! whitespace trimming, ASCII case folding, decimal and hexadecimal rendering
//! and unsigned integer parsing.

use vstd::prelude::*;
use vstd::string::*;

verus! {

// ---------------------------------------------------------------------------
// Whitespace and trimming
// ---------------------------------------------------------------------------

/// Unicode `White_Space` characters (the set `char::is_whitespace` accepts).
pub open spec fn is_ws(c: char) -> bool {
    let u = c as u32;
    ||| 0x09 <= u <= 0x0D
    ||| u == 0x20
    ||| u == 0x85
    ||| u == 0xA0
    ||| u == 0x1680
    ||| 0x2000 <= u <= 0x200A
    ||| u == 0x2028
    ||| u == 0x2029
    ||| u == 0x202F
    ||| u == 0x205F
    ||| u == 0x3000
}

pub open spec fn trim_start(s: Seq<char>) -> Seq<char>
    decreases s.len(),
{
    if s.len() > 0 && is_ws(s[0]) {
        trim_start(s.drop_first())
    } else {
        s
    }
}

pub open spec fn trim_end(s: Seq<char>) -> Seq<char>
    decreases s.len(),
{
    if s.len() > 0 && is_ws(s.last()) {
        trim_end(s.drop_last())
    } else {
        s
    }
}

/// What `str::trim` returns: leading and trailing whitespace removed.
pub open spec fn trim(s: Seq<char>) -> Seq<char> {
    trim_end(trim_start(s))
}

/// A string that is empty once trimmed.
pub open spec fn is_blank(s: Seq<char>) -> bool {
    trim(s).len() == 0
}

pub fn char_is_ws(c: char) -> (r: bool)
    ensures
        r == is_ws(c),
{
    let u = c as u32;
    (0x09 <= u && u <= 0x0D) || u == 0x20 || u == 0x85 || u == 0xA0 || u == 0x1680 || (0x2000 <= u
        && u <= 0x200A) || u == 0x2028 || u == 0x2029 || u == 0x202F || u == 0x205F || u == 0x3000
}

proof fn lemma_trim_start_step(s: Seq<char>, i: int)
    requires
        0 <= i < s.len(),
        is_ws(s[i]),
    ensures
        trim_start(s.subrange(i, s.len() as int)) == trim_start(s.subrange(i + 1, s.len() as int)),
{
    let t = s.subrange(i, s.len() as int);
    assert(t.drop_first() =~= s.subrange(i + 1, s.len() as int));
}

proof fn lemma_trim_end_step(s: Seq<char>, j: int)
    requires
        0 < j <= s.len(),
        is_ws(s[j - 1]),
    ensures
        trim_end(s.subrange(0, j)) == trim_end(s.subrange(0, j - 1)),
{
    let t = s.subrange(0, j);
    assert(t.drop_last() =~= s.subrange(0, j - 1));
}

/// `str::trim`, computed character by character.
pub fn trim_str(s: &str) -> (r: &str)
    ensures
        r@ == trim(s@),
{
    let n = s.unicode_len();
    let mut i: usize = 0;
    assert(s@.subrange(0, n as int) =~= s@);
    while i < n && char_is_ws(s.get_char(i))
        invariant
            n == s@.len(),
            i <= n,
            trim_start(s@) == trim_start(s@.subrange(i as int, n as int)),
        decreases n - i,
    {
        proof {
            lemma_trim_start_step(s@, i as int);
        }
        i = i + 1;
    }
    let ghost t = s@.subrange(i as int, n as int);
    assert(trim_start(s@) == t);
    let mut j: usize = n;
    assert(t.subrange(0, (n - i) as int) =~= t);
    while j > i && char_is_ws(s.get_char(j - 1))
        invariant
            n == s@.len(),
            i <= j <= n,
            t == s@.subrange(i as int, n as int),
            trim_end(t) == trim_end(t.subrange(0, (j - i) as int)),
        decreases j,
    {
        proof {
            lemma_trim_end_step(t, (j - i) as int);
        }
        j = j - 1;
    }
    assert(t.subrange(0, (j - i) as int) =~= s@.subrange(i as int, j as int));
    s.substring_char(i, j)
}

/// True when the string is empty after trimming.
pub fn str_is_blank(s: &str) -> (r: bool)
    ensures
        r == is_blank(s@),
{
    let t = trim_str(s);
    t.unicode_len() == 0
}

// ---------------------------------------------------------------------------
// Equality and ASCII case folding
// ---------------------------------------------------------------------------

pub fn str_eq(a: &str, b: &str) -> (r: bool)
    ensures
        r == (a@ == b@),
{
    let n = a.unicode_len();
    let m = b.unicode_len();
    if n != m {
        return false;
    }
    let mut i: usize = 0;
    while i < n
        invariant
            n == a@.len(),
            n == b@.len(),
            i <= n,
            forall|k: int| 0 <= k < i ==> a@[k] == b@[k],
        decreases n - i,
    {
        if a.get_char(i) != b.get_char(i) {
            return false;
        }
        i = i + 1;
    }
    assert(a@ =~= b@);
    true
}

pub open spec fn ascii_lower_char(c: char) -> char {
    if 'A' <= c <= 'Z' {
        ((c as u32) + 32) as char
    } else {
        c
    }
}

/// `str::to_ascii_lowercase` on the character view.
pub open spec fn ascii_lower(s: Seq<char>) -> Seq<char> {
    s.map_values(|c: char| ascii_lower_char(c))
}

fn lower_char(c: char) -> (r: char)
    ensures
        r == ascii_lower_char(c),
{
    if 'A' <= c && c <= 'Z' {
        let k = ((c as u32) - 0x41) as usize;
        let piece = ascii_letter_str(k);
        piece.get_char(0)
    } else {
        c
    }
}

/// Compares the ASCII-lowercased form of `s` with `lit`.
pub fn lower_eq(s: &str, lit: &str) -> (r: bool)
    ensures
        r == (ascii_lower(s@) == lit@),
{
    let n = s.unicode_len();
    let m = lit.unicode_len();
    if n != m {
        return false;
    }
    let mut i: usize = 0;
    while i < n
        invariant
            n == s@.len(),
            n == lit@.len(),
            i <= n,
            forall|k: int| 0 <= k < i ==> ascii_lower_char(s@[k]) == lit@[k],
        decreases n - i,
    {
        if lower_char(s.get_char(i)) != lit.get_char(i) {
            assert(ascii_lower(s@)[i as int] != lit@[i as int]);
            return false;
        }
        i = i + 1;
    }
    assert(ascii_lower(s@) =~= lit@);
    true
}

/// Builds `str::to_ascii_lowercase(s)`.
pub fn to_ascii_lower(s: &str) -> (r: String)
    ensures
        r@ == ascii_lower(s@),
{
    let n = s.unicode_len();
    let mut out = String::new();
    let mut i: usize = 0;
    while i < n
        invariant
            n == s@.len(),
            i <= n,
            out@ =~= ascii_lower(s@).subrange(0, i as int),
        decreases n - i,
    {
        let c = s.get_char(i);
        if 'A' <= c && c <= 'Z' {
            let lc = ascii_letter_str(((c as u32) - 0x41) as usize);
            out.append(lc);
        } else {
            let piece = s.substring_char(i, i + 1);
            out.append(piece);
        }
        i = i + 1;
    }
    out
}

/// One-character literal for the lower-case ASCII letter with index `k`.
fn ascii_letter_str(k: usize) -> (r: &'static str)
    requires
        k < 26,
    ensures
        r@ == seq![((0x61 + k) as u32) as char],
        r@.len() == 1,
{
    proof {
        reveal_strlit("abcdefghijklmnopqrstuvwxyz");
    }
    let alpha = "abcdefghijklmnopqrstuvwxyz";
    alpha.substring_char(k, k + 1)
}

// ---------------------------------------------------------------------------
// Decimal and hexadecimal rendering
// ---------------------------------------------------------------------------

pub open spec fn digit_char(d: nat) -> char
    recommends
        d < 16,
{
    if d < 10 {
        (('0' as u32) + d) as char
    } else {
        (('a' as u32) + d - 10) as char
    }
}

pub open spec fn upper_digit_char(d: nat) -> char
    recommends
        d < 16,
{
    if d < 10 {
        (('0' as u32) + d) as char
    } else {
        (('A' as u32) + d - 10) as char
    }
}

/// Decimal rendering of `n` (what `{}` formats for an unsigned integer).
pub open spec fn dec(n: nat) -> Seq<char>
    decreases n,
{
    if n < 10 {
        seq![digit_char(n)]
    } else {
        dec(n / 10).push(digit_char(n % 10))
    }
}

/// Two lower-case hex digits of a byte (`{:02x}`).
pub open spec fn hex2(b: u8) -> Seq<char> {
    seq![digit_char((b / 16) as nat), digit_char((b % 16) as nat)]
}

/// Two upper-case hex digits of a byte (`{:02X}`).
pub open spec fn hex2_upper(b: u8) -> Seq<char> {
    seq![upper_digit_char((b / 16) as nat), upper_digit_char((b % 16) as nat)]
}

/// One-character literal for a hex digit, lower or upper case letters.
fn digit_str(d: u64, upper: bool) -> (r: &'static str)
    requires
        d < 16,
    ensures
        r@ == seq![if upper { upper_digit_char(d as nat) } else { digit_char(d as nat) }],
{
    proof {
        reveal_strlit("0123456789abcdef");
        reveal_strlit("0123456789ABCDEF");
    }
    let table = if upper {
        "0123456789ABCDEF"
    } else {
        "0123456789abcdef"
    };
    let k = d as usize;
    table.substring_char(k, k + 1)
}

/// Appends the decimal digits of `n`.
pub fn push_dec(out: &mut String, n: u64)
    ensures
        final(out)@ == old(out)@ + dec(n as nat),
    decreases n,
{
    if n >= 10 {
        push_dec(out, n / 10);
    }
    let d = digit_str(n % 10, false);
    out.append(d);
    proof {
        if n >= 10 {
            assert(dec(n as nat) == dec((n / 10) as nat).push(digit_char((n % 10) as nat)));
        }
    }
    assert(final(out)@ =~= old(out)@ + dec(n as nat));
}

/// Appends the decimal digits of a 128-bit amount.
pub fn push_dec128(out: &mut String, n: u128)
    ensures
        final(out)@ == old(out)@ + dec(n as nat),
    decreases n,
{
    if n >= 10 {
        push_dec128(out, n / 10);
    }
    let d = digit_str((n % 10) as u64, false);
    out.append(d);
    assert(final(out)@ =~= old(out)@ + dec(n as nat));
}

/// Appends the two lower-case hex digits of `b`.
pub fn push_hex2(out: &mut String, b: u8)
    ensures
        final(out)@ == old(out)@ + hex2(b),
{
    out.append(digit_str((b / 16) as u64, false));
    out.append(digit_str((b % 16) as u64, false));
    assert(final(out)@ =~= old(out)@ + hex2(b));
}

/// Appends the two upper-case hex digits of `b`.
pub fn push_hex2_upper(out: &mut String, b: u8)
    ensures
        final(out)@ == old(out)@ + hex2_upper(b),
{
    out.append(digit_str((b / 16) as u64, true));
    out.append(digit_str((b % 16) as u64, true));
    assert(final(out)@ =~= old(out)@ + hex2_upper(b));
}

/// Decimal rendering of `n` as a fresh string.
pub fn dec_string(n: u64) -> (r: String)
    ensures
        r@ == dec(n as nat),
{
    let mut out = String::new();
    push_dec(&mut out, n);
    assert(out@ =~= dec(n as nat));
    out
}

// ---------------------------------------------------------------------------
// Unsigned integer parsing (`str::parse` / `from_str_radix` for unsigned types)
// ---------------------------------------------------------------------------

/// Value of an ASCII digit in `radix` (10 or 16), if it is one.
pub open spec fn digit_value(c: char, radix: nat) -> Option<nat> {
    let u = c as u32;
    if 0x30 <= u <= 0x39 && (u - 0x30) < radix {
        Some((u - 0x30) as nat)
    } else if 0x61 <= u <= 0x7A && (u - 0x61 + 10) < radix {
        Some((u - 0x61 + 10) as nat)
    } else if 0x41 <= u <= 0x5A && (u - 0x41 + 10) < radix {
        Some((u - 0x41 + 10) as nat)
    } else {
        None
    }
}

pub open spec fn all_digits(s: Seq<char>, radix: nat) -> bool {
    forall|i: int| 0 <= i < s.len() ==> (#[trigger] digit_value(s[i], radix)) is Some
}

/// Numeric value of a run of digits.
pub open spec fn digits_value(s: Seq<char>, radix: nat) -> nat
    decreases s.len(),
{
    if s.len() == 0 {
        0
    } else {
        digits_value(s.drop_last(), radix) * radix + digit_value(s.last(), radix).unwrap_or(0)
    }
}

/// Digits after an optional leading `+` (a lone `+` leaves nothing).
pub open spec fn unsigned_body(s: Seq<char>) -> Seq<char> {
    if s.len() > 0 && s[0] == '+' {
        s.drop_first()
    } else {
        s
    }
}

/// What `from_str_radix` yields for an unsigned type whose largest value is `max`.
pub open spec fn parse_unsigned(s: Seq<char>, radix: nat, max: nat) -> Option<nat> {
    let body = unsigned_body(s);
    if body.len() == 0 || !all_digits(body, radix) || digits_value(body, radix) > max {
        None
    } else {
        Some(digits_value(body, radix))
    }
}

fn char_digit_value(c: char, radix: u32) -> (r: Option<u32>)
    requires
        radix == 10 || radix == 16,
    ensures
        r is Some <==> digit_value(c, radix as nat) is Some,
        r is Some ==> r->0 as nat == digit_value(c, radix as nat)->0,
        r is Some ==> r->0 < radix,
{
    let u = c as u32;
    if 0x30 <= u && u <= 0x39 && (u - 0x30) < radix {
        Some(u - 0x30)
    } else if 0x61 <= u && u <= 0x7A && (u - 0x61 + 10) < radix {
        Some(u - 0x61 + 10)
    } else if 0x41 <= u && u <= 0x5A && (u - 0x41 + 10) < radix {
        Some(u - 0x41 + 10)
    } else {
        None
    }
}

proof fn lemma_digits_value_prefix_mono(s: Seq<char>, radix: nat, i: int)
    requires
        0 <= i <= s.len(),
        radix >= 1,
    ensures
        digits_value(s.subrange(0, i), radix) <= digits_value(s, radix),
    decreases s.len() - i,
{
    if i < s.len() {
        lemma_digits_value_prefix_mono(s, radix, i + 1);
        let p = s.subrange(0, i + 1);
        assert(p.drop_last() =~= s.subrange(0, i));
        let v = digits_value(s.subrange(0, i), radix);
        assert(v * radix >= v) by (nonlinear_arith)
            requires
                radix >= 1,
        ;
    } else {
        assert(s.subrange(0, i) =~= s);
    }
}

/// Parses an unsigned integer in `radix` with upper bound `max`, as
/// `from_str_radix` does for the unsigned type whose largest value is `max`.
pub fn parse_unsigned_str(s: &str, radix: u32, max: u64) -> (r: Option<u64>)
    requires
        radix == 10 || radix == 16,
        max >= 15,
    ensures
        r is Some <==> parse_unsigned(s@, radix as nat, max as nat) is Some,
        r is Some ==> r->0 as nat == parse_unsigned(s@, radix as nat, max as nat)->0,
{
    let n = s.unicode_len();
    let mut start: usize = 0;
    if n > 0 && s.get_char(0) == '+' {
        start = 1;
    }
    let ghost body = unsigned_body(s@);
    assert(body =~= s@.subrange(start as int, n as int));
    if start == n {
        return None;
    }
    let mut acc: u64 = 0;
    let mut i: usize = start;
    while i < n
        invariant
            n == s@.len(),
            start <= i <= n,
            body == s@.subrange(start as int, n as int),
            body == unsigned_body(s@),
            radix == 10 || radix == 16,
            max >= 15,
            all_digits(body.subrange(0, (i - start) as int), radix as nat),
            acc as nat == digits_value(body.subrange(0, (i - start) as int), radix as nat),
            acc <= max,
        decreases n - i,
    {
        let c = s.get_char(i);
        let dv = char_digit_value(c, radix);
        let ghost k = (i - start) as int;
        assert(body[k] == c);
        match dv {
            None => {
                assert(digit_value(body[k], radix as nat) is None);
                assert(!all_digits(body, radix as nat));
                return None;
            },
            Some(d) => {
                let ghost p = body.subrange(0, k + 1);
                assert(p.drop_last() =~= body.subrange(0, k));
                assert(digits_value(p, radix as nat) == acc * radix + d);
                proof {
                    lemma_digits_value_prefix_mono(body, radix as nat, k + 1);
                }
                assert(d <= max);
                if acc > (max - d as u64) / radix as u64 {
                    // acc * radix + d > max
                    assert(acc * radix + d > max) by (nonlinear_arith)
                        requires
                            acc > (max - d) / (radix as int),
                            radix > 0,
                            d <= max,
                    ;
                    return None;
                }
                assert(acc * radix + d <= max) by (nonlinear_arith)
                    requires
                        acc <= (max - d) / (radix as int),
                        radix > 0,
                        d <= max,
                ;
                acc = acc * radix as u64 + d as u64;
                assert forall|j: int| 0 <= j < p.len() implies (#[trigger] digit_value(p[j], radix as nat)) is Some by {
                    if j < k {
                        assert(p[j] == body.subrange(0, k)[j]);
                    }
                }
            },
        }
        i = i + 1;
    }
    assert(body.subrange(0, (n - start) as int) =~= body);
    Some(acc)
}

/// Parses a decimal `u128` as `str::parse::<u128>` does.
pub fn parse_u128_dec(s: &str) -> (r: Option<u128>)
    ensures
        r is Some <==> parse_unsigned(s@, 10, u128::MAX as nat) is Some,
        r is Some ==> r->0 as nat == parse_unsigned(s@, 10, u128::MAX as nat)->0,
{
    let n = s.unicode_len();
    let mut start: usize = 0;
    if n > 0 && s.get_char(0) == '+' {
        start = 1;
    }
    let ghost body = unsigned_body(s@);
    assert(body =~= s@.subrange(start as int, n as int));
    if start == n {
        return None;
    }
    let mut acc: u128 = 0;
    let mut i: usize = start;
    while i < n
        invariant
            n == s@.len(),
            start <= i <= n,
            body == s@.subrange(start as int, n as int),
            body == unsigned_body(s@),
            all_digits(body.subrange(0, (i - start) as int), 10),
            acc as nat == digits_value(body.subrange(0, (i - start) as int), 10),
        decreases n - i,
    {
        let c = s.get_char(i);
        let dv = char_digit_value(c, 10);
        let ghost k = (i - start) as int;
        assert(body[k] == c);
        match dv {
            None => {
                assert(digit_value(body[k], 10) is None);
                assert(!all_digits(body, 10));
                return None;
            },
            Some(d) => {
                let ghost p = body.subrange(0, k + 1);
                assert(p.drop_last() =~= body.subrange(0, k));
                assert(digits_value(p, 10) == acc * 10 + d);
                proof {
                    lemma_digits_value_prefix_mono(body, 10, k + 1);
                }
                if acc > (u128::MAX - d as u128) / 10 {
                    assert(acc * 10 + d > u128::MAX) by (nonlinear_arith)
                        requires
                            acc > (u128::MAX - d) / 10,
                            d < 10,
                    ;
                    return None;
                }
                assert(acc * 10 + d <= u128::MAX) by (nonlinear_arith)
                    requires
                        acc <= (u128::MAX - d) / 10,
                        d < 10,
                ;
                acc = acc * 10 + d as u128;
                assert forall|j: int| 0 <= j < p.len() implies (#[trigger] digit_value(p[j], 10)) is Some by {
                    if j < k {
                        assert(p[j] == body.subrange(0, k)[j]);
                    }
                }
            },
        }
        i = i + 1;
    }
    assert(body.subrange(0, (n - start) as int) =~= body);
    Some(acc)
}

// ---------------------------------------------------------------------------
// Debug rendering
// ---------------------------------------------------------------------------

/// What `{:?}` renders for a string: double-quoted, with escapes.
pub uninterp spec fn debug_str(s: Seq<char>) -> Seq<char>;

/// `<str as Debug>::fmt` through `format!("{:?}")`; the result is named [`debug_str`].
#[verifier::external_body]
pub(crate) fn debug_quoted(s: &str) -> (r: String)
    ensures
        r@ == debug_str(s@),
{
    format!("{s:?}")
}

/// Whether `s` begins with `prefix`.
pub fn starts_with(s: &str, prefix: &str) -> (r: bool)
    ensures
        r == (prefix@.len() <= s@.len() && s@.take(prefix@.len() as int) == prefix@),
{
    let n = s.unicode_len();
    let m = prefix.unicode_len();
    if m > n {
        return false;
    }
    let mut i: usize = 0;
    while i < m
        invariant
            n == s@.len(),
            m == prefix@.len(),
            m <= n,
            i <= m,
            forall|k: int| 0 <= k < i ==> s@[k] == prefix@[k],
        decreases m - i,
    {
        if s.get_char(i) != prefix.get_char(i) {
            assert(s@.take(m as int)[i as int] != prefix@[i as int]);
            return false;
        }
        i = i + 1;
    }
    assert(s@.take(m as int) =~= prefix@);
    true
}


// ---------------------------------------------------------------------------
// Fields separated by a character
// ---------------------------------------------------------------------------

/// Length of the first field of `s`: the characters before the first `c`
/// (all of `s` where it holds none).
pub open spec fn seg_len(s: Seq<char>, c: char) -> nat
    decreases s.len(),
{
    if s.len() == 0 || s[0] == c {
        0
    } else {
        1 + seg_len(s.skip(1), c)
    }
}

pub(crate) proof fn lemma_seg_len(t: Seq<char>, c: char, n: nat)
    requires
        n <= t.len(),
        forall|i: int| 0 <= i < n ==> t[i] != c,
        n < t.len() ==> t[n as int] == c,
    ensures
        seg_len(t, c) == n,
    decreases n,
{
    if n > 0 {
        lemma_seg_len(t.skip(1), c, (n - 1) as nat);
    }
}

/// The first field ends before the first `c`, or at the end.
pub(crate) proof fn lemma_seg_len_props(s: Seq<char>, c: char)
    ensures
        seg_len(s, c) <= s.len(),
        forall|i: int| 0 <= i < seg_len(s, c) ==> s[i] != c,
        seg_len(s, c) < s.len() ==> s[seg_len(s, c) as int] == c,
    decreases s.len(),
{
    if s.len() > 0 && s[0] != c {
        lemma_seg_len_props(s.skip(1), c);
        assert forall|i: int| 0 <= i < seg_len(s, c) implies s[i] != c by {
            if i > 0 {
                assert(s[i] == s.skip(1)[i - 1]);
            }
        }
    }
}

/// First index at or after `from` that holds `c` (the length where none does).
pub(crate) fn find_char(s: &str, from: usize, c: char) -> (j: usize)
    requires
        from <= s@.len(),
    ensures
        from <= j <= s@.len(),
        forall|i: int| from <= i < j ==> s@[i] != c,
        j < s@.len() ==> s@[j as int] == c,
{
    let len = s.unicode_len();
    let mut j = from;
    while j < len
        invariant
            len == s@.len(),
            from <= j <= len,
            forall|i: int| from <= i < j ==> s@[i] != c,
        decreases len - j,
    {
        if s.get_char(j) == c {
            return j;
        }
        j = j + 1;
    }
    j
}

/// Parsing the decimal rendering of a number no larger than `max` gives
/// the number back.
pub proof fn lemma_parse_dec(n: nat, max: nat)
    requires
        n <= max,
    ensures
        parse_unsigned(dec(n), 10, max) == Some(n),
{
    lemma_dec_digits(n);
}

/// Every character of a decimal rendering is an ASCII digit.
pub(crate) proof fn lemma_dec_chars(n: nat)
    ensures
        dec(n).len() > 0,
        forall|i: int| 0 <= i < dec(n).len() ==> 0x30 <= (#[trigger] dec(n)[i]) as u32 <= 0x39,
{
    lemma_dec_digits(n);
    assert forall|i: int| 0 <= i < dec(n).len() implies 0x30 <= (#[trigger] dec(n)[i]) as u32 <= 0x39 by {
        assert(digit_value(dec(n)[i], 10) is Some);
    }
}

pub(crate) proof fn lemma_dec_digits(n: nat)
    ensures
        dec(n).len() > 0,
        dec(n)[0] != '+',
        all_digits(dec(n), 10),
        digits_value(dec(n), 10) == n,
        forall|i: int| 0 <= i < dec(n).len() ==> (#[trigger] dec(n)[i]) != ':' && dec(n)[i] != '\n',
    decreases n,
{
    if n < 10 {
        assert(dec(n).drop_last() =~= Seq::<char>::empty());
        assert(digit_value(dec(n).last(), 10) == Some(n));
        assert(digits_value(Seq::<char>::empty(), 10) == 0);
        assert(digits_value(dec(n), 10) == digits_value(dec(n).drop_last(), 10) * 10 + n);
    } else {
        lemma_dec_digits(n / 10);
        let p = dec(n / 10);
        assert(dec(n).drop_last() =~= p);
        assert(digit_value(dec(n).last(), 10) == Some(n % 10));
        assert(n == (n / 10) * 10 + n % 10);
        assert(digits_value(dec(n), 10) == digits_value(p, 10) * 10 + n % 10);
        assert forall|i: int| 0 <= i < dec(n).len() implies (#[trigger] digit_value(dec(n)[i], 10))
            is Some && dec(n)[i] != ':' && dec(n)[i] != '\n' by {
            if i < p.len() {
                assert(dec(n)[i] == p[i]);
                assert(digit_value(p[i], 10) is Some);
            }
        }
    }
}

// ---------------------------------------------------------------------------
// Splitting at a pattern
// ---------------------------------------------------------------------------

/// Whether `p` occurs in `s` at index `i`.
pub open spec fn occurs_at(s: Seq<char>, p: Seq<char>, i: int) -> bool {
    0 <= i && i + p.len() <= s.len() && s.subrange(i, i + p.len()) == p
}

/// Index of the first occurrence of `p` in `s`.
#[verifier::opaque]
pub open spec fn first_occ(s: Seq<char>, p: Seq<char>) -> Option<int> {
    if exists|i: int| occurs_at(s, p, i) {
        Some(choose|i: int| occurs_at(s, p, i) && forall|j: int| 0 <= j < i ==> !occurs_at(s, p, j))
    } else {
        None
    }
}

/// What `str::split_once` yields: the text before and after the first
/// occurrence of `p`.
pub open spec fn split_once(s: Seq<char>, p: Seq<char>) -> Option<(Seq<char>, Seq<char>)> {
    match first_occ(s, p) {
        Some(i) => Some((s.take(i), s.skip(i + p.len()))),
        None => None,
    }
}

pub(crate) proof fn lemma_first_occ_is(s: Seq<char>, p: Seq<char>, i: int)
    requires
        occurs_at(s, p, i),
        forall|j: int| 0 <= j < i ==> !occurs_at(s, p, j),
    ensures
        first_occ(s, p) == Some(i),
{
    reveal(first_occ);
    let k = choose|k: int| occurs_at(s, p, k) && forall|j: int| 0 <= j < k ==> !occurs_at(s, p, j);
    assert(occurs_at(s, p, k) && forall|j: int| 0 <= j < k ==> !occurs_at(s, p, j));
    if k < i {
        assert(!occurs_at(s, p, k));
    }
    if i < k {
        assert(!occurs_at(s, p, i));
    }
}

/// `split_once` at an occurrence with none before it.
pub(crate) proof fn lemma_split_once_at(s: Seq<char>, p: Seq<char>, i: int)
    requires
        occurs_at(s, p, i),
        forall|j: int| 0 <= j < i ==> !occurs_at(s, p, j),
    ensures
        split_once(s, p) == Some((s.take(i), s.skip(i + p.len()))),
{
    lemma_first_occ_is(s, p, i);
}

fn occurs_at_exec(s: &str, p: &str, i: usize) -> (r: bool)
    requires
        i + p@.len() <= s@.len(),
    ensures
        r == occurs_at(s@, p@, i as int),
{
    let m = p.unicode_len();
    let n = s.unicode_len();
    let mut k: usize = 0;
    while k < m
        invariant
            m == p@.len(),
            n == s@.len(),
            i + m <= n,
            k <= m,
            forall|q: int| 0 <= q < k ==> s@[i + q] == p@[q],
        decreases m - k,
    {
        if s.get_char(i + k) != p.get_char(k) {
            assert(s@.subrange(i as int, i + m)[k as int] != p@[k as int]);
            return false;
        }
        k = k + 1;
    }
    assert(s@.subrange(i as int, i + m) =~= p@);
    true
}

/// `str::split_once`.
pub fn split_once_str<'a>(s: &'a str, p: &str) -> (r: Option<(&'a str, &'a str)>)
    ensures
        r is Some <==> split_once(s@, p@) is Some,
        r matches Some((a, b)) ==> split_once(s@, p@) == Some((a@, b@)),
{
    let n = s.unicode_len();
    let m = p.unicode_len();
    if m > n {
        assert forall|i: int| !occurs_at(s@, p@, i) by {}
        reveal(first_occ);
        return None;
    }
    if m == 0 {
        assert(s@.subrange(0, 0) =~= p@);
        proof {
            lemma_first_occ_is(s@, p@, 0);
        }
        let a = s.substring_char(0, 0);
        assert(a@ =~= s@.take(0));
        assert(s@.skip(0) =~= s@);
        return Some((a, s));
    }
    let mut i: usize = 0;
    while i <= n - m
        invariant
            n == s@.len(),
            m == p@.len(),
            0 < m <= n,
            i <= n - m + 1,
            forall|j: int| 0 <= j < i ==> !occurs_at(s@, p@, j),
        decreases n - m + 1 - i,
    {
        if occurs_at_exec(s, p, i) {
            proof {
                lemma_first_occ_is(s@, p@, i as int);
            }
            let a = s.substring_char(0, i);
            let b = s.substring_char(i + m, n);
            assert(a@ =~= s@.take(i as int));
            assert(b@ =~= s@.skip(i + m));
            return Some((a, b));
        }
        i = i + 1;
    }
    assert forall|j: int| !occurs_at(s@, p@, j) by {
        if 0 <= j < i {
        }
    }
    reveal(first_occ);
    None
}

} // verus!
