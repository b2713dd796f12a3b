//! Console log line formatting, runtime log-override filters and log file
//! templates.
//!
//! A console line reads `[hh:mm:ss.mmm] #LEVEL: message | key=value ...`.
//! With ANSI colour on, warnings and errors get coloured tags, info and
//! stage messages a tint, numbers a highlight (except in id-like tokens),
//! and field values a palette by shape.

use crate::text::{
    ascii_lower, is_blank, starts_with, str_eq, to_ascii_lower, trim, trim_str,
};
use vstd::prelude::*;
use vstd::string::*;

verus! {

/// Severity of a log event.
#[derive(Clone, Copy, Debug, PartialEq, Eq, Structural)]
pub enum LogLevel {
    Trace,
    Debug,
    Info,
    Warn,
    Error,
}

pub open spec fn level_tag_spec(level: LogLevel) -> Seq<char> {
    match level {
        LogLevel::Trace => "#TRACE"@,
        LogLevel::Debug => "#DEBUG"@,
        LogLevel::Info => "#INFO"@,
        LogLevel::Warn => "#WARN"@,
        LogLevel::Error => "#ERROR"@,
    }
}

pub fn level_tag(level: LogLevel) -> (r: &'static str)
    ensures
        r@ == level_tag_spec(level),
{
    match level {
        LogLevel::Trace => "#TRACE",
        LogLevel::Debug => "#DEBUG",
        LogLevel::Info => "#INFO",
        LogLevel::Warn => "#WARN",
        LogLevel::Error => "#ERROR",
    }
}

/// Tag with colour: bright red for errors, red for warnings, plain otherwise.
pub open spec fn color_level_tag_spec(level: LogLevel) -> Seq<char> {
    match level {
        LogLevel::Error => "\x1b[91m#ERROR\x1b[0m"@,
        LogLevel::Warn => "\x1b[31m#WARN\x1b[0m"@,
        _ => level_tag_spec(level),
    }
}

pub fn color_level_tag(level: LogLevel) -> (r: &'static str)
    ensures
        r@ == color_level_tag_spec(level),
{
    match level {
        LogLevel::Error => "\x1b[91m#ERROR\x1b[0m",
        LogLevel::Warn => "\x1b[31m#WARN\x1b[0m",
        _ => level_tag(level),
    }
}

// ---------------------------------------------------------------------------
// Character classes
// ---------------------------------------------------------------------------

pub open spec fn is_digit(c: char) -> bool {
    '0' <= c <= '9'
}

pub open spec fn is_hex_digit(c: char) -> bool {
    is_digit(c) || ('a' <= c <= 'f') || ('A' <= c <= 'F')
}

pub open spec fn is_alnum(c: char) -> bool {
    is_digit(c) || ('a' <= c <= 'z') || ('A' <= c <= 'Z')
}

/// Characters of the base58 alphabet.
pub open spec fn is_base58(c: char) -> bool {
    ('1' <= c <= '9') || ('A' <= c <= 'H') || ('J' <= c <= 'N') || ('P' <= c <= 'Z') || ('a'
        <= c <= 'k') || ('m' <= c <= 'z')
}

/// Characters of base64 / url-safe ids.
pub open spec fn is_id_char(c: char) -> bool {
    is_alnum(c) || c == '+' || c == '/' || c == '=' || c == '_' || c == '-'
}

fn char_is_digit(c: char) -> (r: bool)
    ensures
        r == is_digit(c),
{
    '0' <= c && c <= '9'
}

fn char_is_hex(c: char) -> (r: bool)
    ensures
        r == is_hex_digit(c),
{
    ('0' <= c && c <= '9') || ('a' <= c && c <= 'f') || ('A' <= c && c <= 'F')
}

fn char_is_alnum(c: char) -> (r: bool)
    ensures
        r == is_alnum(c),
{
    ('0' <= c && c <= '9') || ('a' <= c && c <= 'z') || ('A' <= c && c <= 'Z')
}

fn char_is_base58(c: char) -> (r: bool)
    ensures
        r == is_base58(c),
{
    ('1' <= c && c <= '9') || ('A' <= c && c <= 'H') || ('J' <= c && c <= 'N') || ('P' <= c
        && c <= 'Z') || ('a' <= c && c <= 'k') || ('m' <= c && c <= 'z')
}

fn char_is_id(c: char) -> (r: bool)
    ensures
        r == is_id_char(c),
{
    char_is_alnum(c) || c == '+' || c == '/' || c == '=' || c == '_' || c == '-'
}

/// Which character class a scan checks.
#[derive(Clone, Copy)]
enum CharClass {
    Hex,
    Base58,
    Id,
    Digit,
}

spec fn in_class(k: CharClass, c: char) -> bool {
    match k {
        CharClass::Hex => is_hex_digit(c),
        CharClass::Base58 => is_base58(c),
        CharClass::Id => is_id_char(c),
        CharClass::Digit => is_digit(c),
    }
}

fn char_in_class(k: CharClass, c: char) -> (r: bool)
    ensures
        r == in_class(k, c),
{
    match k {
        CharClass::Hex => char_is_hex(c),
        CharClass::Base58 => char_is_base58(c),
        CharClass::Id => char_is_id(c),
        CharClass::Digit => char_is_digit(c),
    }
}

/// Every character of `s` (from position `from`) is in class `k`.
fn all_in_class(s: &str, from: usize, k: CharClass) -> (r: bool)
    requires
        from <= s@.len(),
    ensures
        r == (forall|i: int| from <= i < s@.len() ==> in_class(k, #[trigger] s@[i])),
{
    let n = s.unicode_len();
    let mut i = from;
    while i < n
        invariant
            n == s@.len(),
            from <= i <= n,
            forall|j: int| from <= j < i ==> in_class(k, #[trigger] s@[j]),
        decreases n - i,
    {
        if !char_in_class(k, s.get_char(i)) {
            return false;
        }
        i = i + 1;
    }
    true
}

/// Some character of `s` is an ASCII digit.
fn any_digit(s: &str) -> (r: bool)
    ensures
        r == (exists|i: int| 0 <= i < s@.len() && is_digit(#[trigger] s@[i])),
{
    let n = s.unicode_len();
    let mut i: usize = 0;
    while i < n
        invariant
            n == s@.len(),
            i <= n,
            forall|j: int| 0 <= j < i ==> !is_digit(#[trigger] s@[j]),
        decreases n - i,
    {
        if char_is_digit(s.get_char(i)) {
            return true;
        }
        i = i + 1;
    }
    false
}

// ---------------------------------------------------------------------------
// Token shapes
// ---------------------------------------------------------------------------

/// Looks like an account id or a hash: `0x` and at least six hex digits;
/// at least twelve hex digits; or at least sixteen base58 or base64-style
/// characters. (Every accepted character is ASCII, so counting characters
/// and counting bytes agree.)
pub open spec fn looks_like_id_spec(s: Seq<char>) -> bool {
    if s.len() >= 2 && s[0] == '0' && s[1] == 'x' {
        s.len() - 2 >= 6 && (forall|i: int| 2 <= i < s.len() ==> is_hex_digit(#[trigger] s[i]))
    } else {
        ||| s.len() >= 12 && (forall|i: int| 0 <= i < s.len() ==> is_hex_digit(#[trigger] s[i]))
        ||| s.len() >= 16 && (forall|i: int| 0 <= i < s.len() ==> is_base58(#[trigger] s[i]))
        ||| s.len() >= 16 && (forall|i: int| 0 <= i < s.len() ==> is_id_char(#[trigger] s[i]))
    }
}

pub fn looks_like_id(s: &str) -> (r: bool)
    ensures
        r == looks_like_id_spec(s@),
{
    proof {
        reveal_strlit("0x");
    }
    let n = s.unicode_len();
    if starts_with(s, "0x") {
        assert(s@.take(2) == "0x"@);
        assert(s@[0] == s@.take(2)[0] && s@[1] == s@.take(2)[1]);
        return n - 2 >= 6 && all_in_class(s, 2, CharClass::Hex);
    }
    assert(!(s@.len() >= 2 && s@[0] == '0' && s@[1] == 'x')) by {
        if s@.len() >= 2 && s@[0] == '0' && s@[1] == 'x' {
            assert(s@.take(2) =~= "0x"@);
        }
    }
    if n >= 12 && all_in_class(s, 0, CharClass::Hex) {
        return true;
    }
    if n >= 16 && all_in_class(s, 0, CharClass::Base58) {
        return true;
    }
    n >= 16 && all_in_class(s, 0, CharClass::Id)
}

/// A JSON-like object or array once trimmed.
pub open spec fn looks_like_structure_spec(s: Seq<char>) -> bool {
    let t = trim(s);
    t.len() > 0 && ((t[0] == '{' && t.last() == '}') || (t[0] == '[' && t.last() == ']'))
}

pub fn looks_like_structure(s: &str) -> (r: bool)
    ensures
        r == looks_like_structure_spec(s@),
{
    let t = trim_str(s);
    let n = t.unicode_len();
    if n == 0 {
        return false;
    }
    let first = t.get_char(0);
    let last = t.get_char(n - 1);
    (first == '{' && last == '}') || (first == '[' && last == ']')
}

/// Not id-like, and containing a digit.
pub open spec fn looks_like_numeric_spec(s: Seq<char>) -> bool {
    !looks_like_id_spec(s) && exists|i: int| 0 <= i < s.len() && is_digit(#[trigger] s[i])
}

pub fn looks_like_numeric_value(s: &str) -> (r: bool)
    ensures
        r == looks_like_numeric_spec(s@),
{
    if looks_like_id(s) {
        return false;
    }
    any_digit(s)
}

// ---------------------------------------------------------------------------
// Progress lines
// ---------------------------------------------------------------------------

pub open spec fn is_trailing_blank(b: u8) -> bool {
    b == 10 || b == 32 || b == 9
}

/// Bytes with trailing newlines, spaces and tabs removed.
pub open spec fn strip_trailing_blanks(buf: Seq<u8>) -> Seq<u8>
    decreases buf.len(),
{
    if buf.len() > 0 && is_trailing_blank(buf.last()) {
        strip_trailing_blanks(buf.drop_last())
    } else {
        buf
    }
}

/// A progress write: its last byte before trailing blanks is `\r`.
pub fn is_progress_line(buf: &[u8]) -> (r: bool)
    ensures
        r == (strip_trailing_blanks(buf@).len() > 0 && strip_trailing_blanks(buf@).last() == 13),
{
    let mut end = buf.len();
    assert(buf@.take(end as int) =~= buf@);
    while end > 0 && (buf[end - 1] == 10 || buf[end - 1] == 32 || buf[end - 1] == 9)
        invariant
            end <= buf@.len(),
            strip_trailing_blanks(buf@) == strip_trailing_blanks(buf@.take(end as int)),
        decreases end,
    {
        assert(buf@.take(end as int).drop_last() =~= buf@.take(end - 1));
        end = end - 1;
    }
    end > 0 && buf[end - 1] == 13
}

/// A console line that ends in `\r`.
pub fn is_progress_console_line(line: &str) -> (r: bool)
    ensures
        r == (line@.len() > 0 && line@.last() == '\r'),
{
    let n = line.unicode_len();
    n > 0 && line.get_char(n - 1) == '\r'
}

// ---------------------------------------------------------------------------
// Number highlighting and tinting
// ---------------------------------------------------------------------------

/// Continues a number: a digit or a dot.
pub open spec fn is_num_cont(c: char) -> bool {
    is_digit(c) || c == '.'
}

/// Length of the run of number-continuing characters at the front of `s`.
pub open spec fn cont_len(s: Seq<char>) -> nat
    decreases s.len(),
{
    if s.len() > 0 && is_num_cont(s[0]) {
        1 + cont_len(s.drop_first())
    } else {
        0
    }
}

/// A run of number characters is no longer than the text it starts.
pub proof fn lemma_cont_len_bound(s: Seq<char>)
    ensures
        cont_len(s) <= s.len(),
    decreases s.len(),
{
    if s.len() > 0 && is_num_cont(s[0]) {
        lemma_cont_len_bound(s.drop_first());
    }
}

/// A number starts here: a digit, or a sign followed by a digit.
pub open spec fn num_start(s: Seq<char>) -> bool {
    s.len() > 0 && (is_digit(s[0]) || ((s[0] == '+' || s[0] == '-') && s.len() > 1 && is_digit(
        s[1],
    )))
}

/// Every number (a digit or signed digit, then digits and dots) wrapped in
/// magenta.
pub open spec fn hl(s: Seq<char>) -> Seq<char>
    decreases s.len(),
{
    if s.len() == 0 {
        Seq::empty()
    } else if num_start(s) {
        let k: int = 1 + cont_len(s.drop_first()) as int;
        proof {
            lemma_cont_len_bound(s.drop_first());
        }
        "\x1b[95m"@ + s.take(k) + "\x1b[0m"@ + hl(s.skip(k))
    } else {
        seq![s[0]] + hl(s.drop_first())
    }
}

/// Numbers highlighted, unless the whole text looks like an id.
pub open spec fn highlight_spec(s: Seq<char>) -> Seq<char> {
    if looks_like_id_spec(s) {
        s
    } else {
        hl(s)
    }
}

#[verifier::rlimit(50)]
pub fn highlight_numbers(input: &str) -> (r: String)
    ensures
        r@ == highlight_spec(input@),
{
    if looks_like_id(input) {
        return String::from_str(input);
    }
    proof {
        reveal_strlit("\x1b[95m");
        reveal_strlit("\x1b[0m");
    }
    let ghost s = input@;
    let n = input.unicode_len();
    let mut out = String::new();
    let mut i: usize = 0;
    assert(s.skip(0) =~= s);
    while i < n
        invariant
            n == s.len(),
            s == input@,
            i <= n,
            out@ + hl(s.skip(i as int)) == hl(s),
        decreases n - i,
    {
        let ghost rest = s.skip(i as int);
        let c = input.get_char(i);
        let start_num = char_is_digit(c) || ((c == '+' || c == '-') && i + 1 < n && char_is_digit(
            input.get_char(i + 1),
        ));
        assert(start_num == num_start(rest));
        if start_num {
            let start = i;
            i = i + 1;
            assert(s.skip(start + 1) =~= rest.drop_first());
            while i < n && (char_is_digit(input.get_char(i)) || input.get_char(i) == '.')
                invariant
                    n == s.len(),
                    s == input@,
                    start < i <= n,
                    cont_len(s.skip(start + 1)) == (i - start - 1) + cont_len(s.skip(i as int)),
                decreases n - i,
            {
                assert(s.skip(i as int).drop_first() =~= s.skip(i + 1));
                i = i + 1;
            }
            assert(cont_len(s.skip(i as int)) == 0);
            let ghost k = (i - start) as nat;
            proof {
                lemma_cont_len_bound(rest.drop_first());
            }
            assert(hl(rest) == "\x1b[95m"@ + rest.take(k as int) + "\x1b[0m"@ + hl(rest.skip(k as int)));
            assert(rest.skip(k as int) =~= s.skip(i as int));
            assert(rest.take(k as int) =~= s.subrange(start as int, i as int));
            out.append("\x1b[95m");
            out.append(input.substring_char(start, i));
            out.append("\x1b[0m");
            assert(out@ + hl(s.skip(i as int)) =~= hl(s));
        } else {
            assert(hl(rest) == seq![c] + hl(rest.drop_first()));
            assert(rest.drop_first() =~= s.skip(i + 1));
            out.append(input.substring_char(i, i + 1));
            assert(input@.subrange(i as int, i + 1) =~= seq![c]);
            i = i + 1;
            assert(out@ + hl(s.skip(i as int)) =~= hl(s));
        }
    }
    assert(s.skip(n as int) =~= Seq::<char>::empty());
    assert(out@ =~= hl(s));
    out
}

/// Every non-overlapping occurrence of `pat`, left to right, replaced by
/// `rep` (what `str::replace` does for a non-empty pattern).
pub open spec fn replace_all(s: Seq<char>, pat: Seq<char>, rep: Seq<char>) -> Seq<char>
    decreases s.len(),
{
    if pat.len() == 0 || s.len() < pat.len() {
        s
    } else if s.take(pat.len() as int) == pat {
        rep + replace_all(s.skip(pat.len() as int), pat, rep)
    } else {
        seq![s[0]] + replace_all(s.drop_first(), pat, rep)
    }
}

pub fn replace_str(s: &str, pat: &str, rep: &str) -> (r: String)
    requires
        pat@.len() > 0,
    ensures
        r@ == replace_all(s@, pat@, rep@),
{
    let ghost v = s@;
    let n = s.unicode_len();
    let m = pat.unicode_len();
    let mut out = String::new();
    let mut i: usize = 0;
    assert(v.skip(0) =~= v);
    while i < n
        invariant
            n == v.len(),
            v == s@,
            m == pat@.len(),
            m > 0,
            i <= n,
            out@ + replace_all(v.skip(i as int), pat@, rep@) == replace_all(v, pat@, rep@),
        decreases n - i,
    {
        let ghost rest = v.skip(i as int);
        if m <= n - i && str_eq(s.substring_char(i, i + m), pat) {
            assert(rest.take(m as int) =~= v.subrange(i as int, (i + m) as int));
            assert(rest.skip(m as int) =~= v.skip((i + m) as int));
            out.append(rep);
            i = i + m;
            assert(out@ + replace_all(v.skip(i as int), pat@, rep@) =~= replace_all(v, pat@, rep@));
        } else {
            if m <= n - i {
                assert(rest.take(m as int) =~= v.subrange(i as int, (i + m) as int));
            }
            let c = s.get_char(i);
            assert(rest.drop_first() =~= v.skip(i + 1));
            proof {
                if rest.len() < m {
                    assert(rest =~= seq![c] + rest.drop_first());
                    assert(replace_all(rest.drop_first(), pat@, rep@) == rest.drop_first());
                }
            }
            assert(replace_all(rest, pat@, rep@) == seq![c] + replace_all(rest.drop_first(), pat@, rep@));
            out.append(s.substring_char(i, i + 1));
            assert(v.subrange(i as int, i + 1) =~= seq![c]);
            i = i + 1;
            assert(out@ + replace_all(v.skip(i as int), pat@, rep@) =~= replace_all(v, pat@, rep@));
        }
    }
    assert(v.skip(n as int) =~= Seq::<char>::empty());
    assert(out@ =~= replace_all(v, pat@, rep@));
    out
}

/// `color` + `input` + reset.
pub open spec fn wrap_spec(input: Seq<char>, color: Seq<char>) -> Seq<char> {
    color + input + "\x1b[0m"@
}

pub fn wrap_color(input: &str, color: &str) -> (r: String)
    ensures
        r@ == wrap_spec(input@, color@),
{
    proof {
        reveal_strlit("\x1b[0m");
    }
    let mut out = String::from_str(color);
    out.append(input);
    out.append("\x1b[0m");
    assert(out@ =~= wrap_spec(input@, color@));
    out
}

/// Message in `color`, numbers highlighted, the tint restored after each
/// highlighted number.
pub open spec fn tint_spec(input: Seq<char>, color: Seq<char>) -> Seq<char> {
    if color.len() == 0 {
        highlight_spec(input)
    } else {
        color + replace_all(highlight_spec(input), "\x1b[0m"@, "\x1b[0m"@ + color) + "\x1b[0m"@
    }
}

pub fn tint_message_keep_numbers(input: &str, color: &str) -> (r: String)
    ensures
        r@ == tint_spec(input@, color@),
{
    if color.unicode_len() == 0 {
        return highlight_numbers(input);
    }
    proof {
        reveal_strlit("\x1b[0m");
    }
    let highlighted = highlight_numbers(input);
    let mut restore = String::from_str("\x1b[0m");
    restore.append(color);
    let mut out = String::from_str(color);
    let body = replace_str(highlighted.as_str(), "\x1b[0m", restore.as_str());
    out.append(body.as_str());
    out.append("\x1b[0m");
    assert(out@ =~= tint_spec(input@, color@));
    out
}

/// Message tint by level: yellow for trace and debug (stage events), blue
/// for info, none otherwise.
pub open spec fn message_color(level: LogLevel) -> Seq<char> {
    match level {
        LogLevel::Trace | LogLevel::Debug => "\x1b[93m"@,
        LogLevel::Info => "\x1b[94m"@,
        _ => Seq::empty(),
    }
}

pub fn color_message(level: LogLevel, msg: &str) -> (r: String)
    ensures
        r@ == tint_spec(msg@, message_color(level)),
{
    proof {
        reveal_strlit("");
    }
    let color = match level {
        LogLevel::Trace | LogLevel::Debug => "\x1b[93m",
        LogLevel::Info => "\x1b[94m",
        _ => "",
    };
    tint_message_keep_numbers(msg, color)
}

/// Field value palette: structures white, ids green, numeric values with
/// highlighted numbers, anything else green.
pub open spec fn field_value_spec(v: Seq<char>) -> Seq<char> {
    if looks_like_structure_spec(v) {
        wrap_spec(v, "\x1b[97m"@)
    } else if looks_like_id_spec(v) {
        wrap_spec(v, "\x1b[92m"@)
    } else if looks_like_numeric_spec(v) {
        highlight_spec(v)
    } else {
        wrap_spec(v, "\x1b[92m"@)
    }
}

pub fn color_field_value(value: &str) -> (r: String)
    ensures
        r@ == field_value_spec(value@),
{
    if looks_like_structure(value) {
        return wrap_color(value, "\x1b[97m");
    }
    if looks_like_id(value) {
        return wrap_color(value, "\x1b[92m");
    }
    if looks_like_numeric_value(value) {
        return highlight_numbers(value);
    }
    wrap_color(value, "\x1b[92m")
}

// ---------------------------------------------------------------------------
// Event lines
// ---------------------------------------------------------------------------

/// `k=v` pairs separated by spaces, values coloured when `ansi`.
pub open spec fn fields_text(fields: Seq<(String, String)>, ansi: bool) -> Seq<char>
    decreases fields.len(),
{
    if fields.len() == 0 {
        Seq::empty()
    } else {
        let prev = fields_text(fields.drop_last(), ansi);
        let (k, v) = fields.last();
        let pair = k@ + "="@ + if ansi {
            field_value_spec(v@)
        } else {
            v@
        };
        if fields.len() == 1 {
            pair
        } else {
            prev + " "@ + pair
        }
    }
}

/// `[ts] TAG: message` and, with fields, ` | k=v k=v`.
pub open spec fn event_line_spec(
    ts: Seq<char>,
    level: LogLevel,
    msg: Seq<char>,
    fields: Seq<(String, String)>,
    ansi: bool,
) -> Seq<char> {
    let tag = if ansi {
        color_level_tag_spec(level)
    } else {
        level_tag_spec(level)
    };
    let m = if ansi {
        tint_spec(msg, message_color(level))
    } else {
        msg
    };
    let head = "["@ + ts + "] "@ + tag + ": "@ + m;
    if fields.len() == 0 {
        head
    } else {
        head + " | "@ + fields_text(fields, ansi)
    }
}

/// Formats one console log line stamped `ts`.
pub fn format_event_line(
    ts: &str,
    level: LogLevel,
    msg: &str,
    fields: &Vec<(String, String)>,
    ansi: bool,
) -> (r: String)
    ensures
        r@ == event_line_spec(ts@, level, msg@, fields@, ansi),
{
    proof {
        reveal_strlit("[");
        reveal_strlit("] ");
        reveal_strlit(": ");
        reveal_strlit(" | ");
        reveal_strlit(" ");
        reveal_strlit("=");
    }
    let tag = if ansi {
        color_level_tag(level)
    } else {
        level_tag(level)
    };
    let mut line = String::from_str("[");
    line.append(ts);
    line.append("] ");
    line.append(tag);
    line.append(": ");
    if ansi {
        let m = color_message(level, msg);
        line.append(m.as_str());
    } else {
        line.append(msg);
    }
    let ghost head = line@;
    if fields.len() > 0 {
        line.append(" | ");
        let ghost base = line@;
        let mut idx: usize = 0;
        assert(fields@.take(0) =~= Seq::<(String, String)>::empty());
        while idx < fields.len()
            invariant
                idx <= fields@.len(),
                line@ == base + fields_text(fields@.take(idx as int), ansi),
            decreases fields@.len() - idx,
        {
            let (k, v) = &fields[idx];
            if idx > 0 {
                line.append(" ");
            }
            line.append(k.as_str());
            line.append("=");
            if ansi {
                let cv = color_field_value(v.as_str());
                line.append(cv.as_str());
            } else {
                line.append(v.as_str());
            }
            assert(fields@.take(idx + 1).drop_last() =~= fields@.take(idx as int));
            assert(fields@.take(idx + 1).last() == fields@[idx as int]);
            assert(line@ =~= base + fields_text(fields@.take(idx + 1), ansi));
            idx = idx + 1;
        }
        assert(fields@.take(fields@.len() as int) =~= fields@);
    }
    assert(line@ =~= event_line_spec(ts@, level, msg@, fields@, ansi));
    line
}

/// Two decimal digits of `n < 100`.
pub open spec fn pad2(n: nat) -> Seq<char> {
    seq![crate::text::digit_char(n / 10), crate::text::digit_char(n % 10)]
}

/// Three decimal digits of `n < 1000`.
pub open spec fn pad3(n: nat) -> Seq<char> {
    seq![
        crate::text::digit_char(n / 100),
        crate::text::digit_char((n / 10) % 10),
        crate::text::digit_char(n % 10),
    ]
}

pub(crate) fn push_pad2(out: &mut String, n: u64)
    requires
        n < 100,
    ensures
        final(out)@ == old(out)@ + pad2(n as nat),
{
    let ghost o = out@;
    crate::text::push_dec(out, n / 10);
    crate::text::push_dec(out, n % 10);
    assert(out@ =~= o + pad2(n as nat));
}

pub(crate) fn push_pad3(out: &mut String, n: u64)
    requires
        n < 1000,
    ensures
        final(out)@ == old(out)@ + pad3(n as nat),
{
    let ghost o = out@;
    crate::text::push_dec(out, n / 100);
    crate::text::push_dec(out, (n / 10) % 10);
    crate::text::push_dec(out, n % 10);
    assert(out@ =~= o + pad3(n as nat));
}

/// Wall-clock stamp `hh:mm:ss.mmm` (UTC) of a Unix time in milliseconds.
pub open spec fn hms_millis_spec(unix_ms: u64) -> Seq<char> {
    let sec_day = (unix_ms / 1000) % 86_400;
    pad2((sec_day / 3_600) as nat) + ":"@ + pad2(((sec_day % 3_600) / 60) as nat) + ":"@ + pad2(
        (sec_day % 60) as nat,
    ) + "."@ + pad3((unix_ms % 1000) as nat)
}

pub fn hms_millis(unix_ms: u64) -> (r: String)
    ensures
        r@ == hms_millis_spec(unix_ms),
{
    proof {
        reveal_strlit(":");
        reveal_strlit(".");
    }
    let sec_day = (unix_ms / 1000) % 86_400;
    let mut out = String::new();
    push_pad2(&mut out, sec_day / 3_600);
    out.append(":");
    push_pad2(&mut out, (sec_day % 3_600) / 60);
    out.append(":");
    push_pad2(&mut out, sec_day % 60);
    out.append(".");
    push_pad3(&mut out, unix_ms % 1000);
    assert(out@ =~= hms_millis_spec(unix_ms));
    out
}

// ---------------------------------------------------------------------------
// Runtime log overrides
// ---------------------------------------------------------------------------

/// Shortest override lifetime, in seconds.
pub const OVR_TTL_MIN: u64 = 1;

/// Longest override lifetime, in seconds.
pub const OVR_TTL_MAX: u64 = 3600;

pub open spec fn is_log_level_name(v: Seq<char>) -> bool {
    v == "trace"@ || v == "debug"@ || v == "info"@ || v == "warn"@ || v == "error"@
}

pub open spec fn is_log_focus_name(v: Seq<char>) -> bool {
    v == "transport:peers"@ || v == "sync:live"@ || v == "seal:loop"@ || v == "snapshot"@ || v
        == "api"@ || v == "all"@
}

/// Normalises a requested level: trimmed and lower-cased, one of
/// `trace|debug|info|warn|error`.
pub fn norm_level(raw: &str) -> (r: Result<String, String>)
    ensures
        is_log_level_name(ascii_lower(trim(raw@))) ==> (r matches Ok(v) && v@ == ascii_lower(
            trim(raw@),
        )),
        !is_log_level_name(ascii_lower(trim(raw@))) ==> (r matches Err(m) && m@
            == "invalid level: expected trace|debug|info|warn|error"@),
{
    let val = to_ascii_lower(trim_str(raw));
    let v = val.as_str();
    if str_eq(v, "trace") || str_eq(v, "debug") || str_eq(v, "info") || str_eq(v, "warn")
        || str_eq(v, "error") {
        Ok(val)
    } else {
        Err(String::from_str("invalid level: expected trace|debug|info|warn|error"))
    }
}

/// Normalises a requested focus: trimmed and lower-cased, one of
/// `transport:peers|sync:live|seal:loop|snapshot|api|all`.
pub fn norm_focus(raw: &str) -> (r: Result<String, String>)
    ensures
        is_log_focus_name(ascii_lower(trim(raw@))) ==> (r matches Ok(v) && v@ == ascii_lower(
            trim(raw@),
        )),
        !is_log_focus_name(ascii_lower(trim(raw@))) ==> (r matches Err(m) && m@
            == "invalid focus: expected transport:peers|sync:live|seal:loop|snapshot|api|all"@),
{
    let val = to_ascii_lower(trim_str(raw));
    let v = val.as_str();
    if str_eq(v, "transport:peers") || str_eq(v, "sync:live") || str_eq(v, "seal:loop") || str_eq(
        v,
        "snapshot",
    ) || str_eq(v, "api") || str_eq(v, "all") {
        Ok(val)
    } else {
        Err(
            String::from_str(
                "invalid focus: expected transport:peers|sync:live|seal:loop|snapshot|api|all",
            ),
        )
    }
}

/// An operator's reason, trimmed; absent when blank.
pub fn trim_reason(raw: Option<String>) -> (r: Option<String>)
    ensures
        r == match raw {
            Some(v) => if trim(v@).len() > 0 {
                Some(r->0)
            } else {
                None
            },
            None => None,
        },
        r matches Some(v) ==> v@ == trim(raw->0@),
{
    match raw {
        Some(v) => {
            let t = trim_str(v.as_str());
            if t.unicode_len() > 0 {
                Some(String::from_str(t))
            } else {
                None
            }
        },
        None => None,
    }
}

/// Log targets a focus raises.
pub open spec fn focus_targets_spec(focus: Seq<char>) -> Seq<Seq<char>> {
    if focus == "transport:peers"@ {
        seq!["pwmd::peer"@]
    } else if focus == "sync:live"@ {
        seq!["pwmd::sync"@]
    } else if focus == "seal:loop"@ {
        seq!["pwmd::lifecycle"@, "pwmd::lease"@]
    } else if focus == "snapshot"@ {
        seq!["pwmd::snapshot"@, "pwmd::startup::snapshot"@]
    } else if focus == "api"@ {
        seq!["pwmd::api"@]
    } else {
        Seq::empty()
    }
}

pub fn focus_targets(focus: &str) -> (r: Vec<&'static str>)
    ensures
        r@.len() == focus_targets_spec(focus@).len(),
        forall|i: int| 0 <= i < r@.len() ==> (#[trigger] r@[i])@ == focus_targets_spec(focus@)[i],
{
    proof {
        reveal_strlit("transport:peers");
        reveal_strlit("sync:live");
        reveal_strlit("seal:loop");
        reveal_strlit("snapshot");
        reveal_strlit("api");
    }
    if str_eq(focus, "transport:peers") {
        vec!["pwmd::peer"]
    } else if str_eq(focus, "sync:live") {
        vec!["pwmd::sync"]
    } else if str_eq(focus, "seal:loop") {
        vec!["pwmd::lifecycle", "pwmd::lease"]
    } else if str_eq(focus, "snapshot") {
        vec!["pwmd::snapshot", "pwmd::startup::snapshot"]
    } else if str_eq(focus, "api") {
        vec!["pwmd::api"]
    } else {
        Vec::new()
    }
}

/// `acc` with `target=level` directives appended, comma separated.
pub open spec fn with_targets(acc: Seq<char>, targets: Seq<Seq<char>>, level: Seq<char>) -> Seq<char>
    decreases targets.len(),
{
    if targets.len() == 0 {
        acc
    } else {
        let prev = with_targets(acc, targets.drop_last(), level);
        (if prev.len() > 0 {
            prev + ","@
        } else {
            prev
        }) + targets.last() + "="@ + level
    }
}

/// Filter for an override: the bare level for focus `all`; otherwise the
/// trimmed baseline with `target=level` for each target of the focus (the
/// bare level when that is empty).
pub open spec fn ovr_filter(base: Seq<char>, level: Seq<char>, focus: Seq<char>) -> Seq<char> {
    if focus == "all"@ {
        level
    } else {
        let s = with_targets(trim(base), focus_targets_spec(focus), level);
        if s.len() == 0 {
            level
        } else {
            s
        }
    }
}

pub fn ovr_filter_spec(base: &str, level: &str, focus: &str) -> (r: String)
    ensures
        r@ == ovr_filter(base@, level@, focus@),
{
    proof {
        reveal_strlit("all");
        reveal_strlit(",");
        reveal_strlit("=");
    }
    if str_eq(focus, "all") {
        return String::from_str(level);
    }
    let mut spec = String::from_str(trim_str(base));
    let ghost start = spec@;
    let targets = focus_targets(focus);
    let ghost ts = focus_targets_spec(focus@);
    let mut i: usize = 0;
    assert(ts.take(0) =~= Seq::<Seq<char>>::empty());
    while i < targets.len()
        invariant
            targets@.len() == ts.len(),
            forall|j: int| 0 <= j < targets@.len() ==> (#[trigger] targets@[j])@ == ts[j],
            i <= ts.len(),
            spec@ == with_targets(start, ts.take(i as int), level@),
        decreases ts.len() - i,
    {
        let ghost prev = spec@;
        if spec.unicode_len() > 0 {
            spec.append(",");
        }
        spec.append(targets[i]);
        spec.append("=");
        spec.append(level);
        assert(ts.take(i + 1).drop_last() =~= ts.take(i as int));
        assert(ts.take(i + 1).last() == ts[i as int]);
        assert(spec@ =~= with_targets(start, ts.take(i + 1), level@));
        i = i + 1;
    }
    assert(ts.take(ts.len() as int) =~= ts);
    if spec.unicode_len() == 0 {
        String::from_str(level)
    } else {
        spec
    }
}

/// Whether an override lifetime is accepted.
pub fn ovr_ttl_ok(ttl_seconds: u64) -> (r: bool)
    ensures
        r == (OVR_TTL_MIN <= ttl_seconds <= OVR_TTL_MAX),
{
    OVR_TTL_MIN <= ttl_seconds && ttl_seconds <= OVR_TTL_MAX
}

/// When an override set at `now_ms` for `ttl_seconds` expires (saturating).
pub fn ovr_expires_at(now_ms: u64, ttl_seconds: u64) -> (r: u64)
    ensures
        r == crate::lease_backend::sat_add(
            now_ms,
            if ttl_seconds * 1000 > u64::MAX {
                u64::MAX
            } else {
                (ttl_seconds * 1000) as u64
            },
        ),
{
    let ms = if ttl_seconds > u64::MAX / 1000 {
        u64::MAX
    } else {
        ttl_seconds * 1000
    };
    now_ms.saturating_add(ms)
}

/// Token of an `Authorization: Bearer <token>` header value (trimmed,
/// non-empty).
pub fn bearer_value(raw: &str) -> (r: Option<&str>)
    ensures
        r == if "Bearer "@.len() <= raw@.len() && raw@.take(7) == "Bearer "@ && trim(
            raw@.skip(7),
        ).len() > 0 {
            Some(r->0)
        } else {
            None::<&str>
        },
        r matches Some(t) ==> t@ == trim(raw@.skip(7)),
{
    proof {
        reveal_strlit("Bearer ");
    }
    if !starts_with(raw, "Bearer ") {
        return None;
    }
    let rest = raw.substring_char(7, raw.unicode_len());
    assert(rest@ =~= raw@.skip(7));
    let t = trim_str(rest);
    if t.unicode_len() > 0 {
        Some(t)
    } else {
        None
    }
}

/// How an operator request is authorised: from loopback, else with the
/// configured bearer token; `None` refuses it.
pub fn op_log_auth(
    remote_is_loopback: bool,
    expected_token: Option<&str>,
    presented: Option<&str>,
) -> (r: Option<&'static str>)
    ensures
        r matches Some(m) ==> (m@ == "loopback"@ || m@ == "token"@),
        remote_is_loopback ==> (r matches Some(m) && m@ == "loopback"@),
        !remote_is_loopback ==> (r is Some <==> (expected_token matches Some(e) && presented matches Some(
            p,
        ) && p@ == e@)),
        !remote_is_loopback && r is Some ==> r->0@ == "token"@,
{
    proof {
        reveal_strlit("loopback");
        reveal_strlit("token");
    }
    if remote_is_loopback {
        return Some("loopback");
    }
    match (expected_token, presented) {
        (Some(e), Some(p)) => if str_eq(p, e) {
            Some("token")
        } else {
            None
        },
        _ => None,
    }
}

// ---------------------------------------------------------------------------
// Log file templates
// ---------------------------------------------------------------------------

pub open spec fn is_token_char(c: char) -> bool {
    is_alnum(c) || c == '-' || c == '_' || c == '.'
}

/// A token character kept, anything else turned into `_`.
pub open spec fn token_char(c: char) -> char {
    if is_token_char(c) {
        c
    } else {
        '_'
    }
}

/// Node id as a file-name token: trimmed, every other character replaced
/// by `_`; `node-unknown` when empty.
pub open spec fn sanitize_spec(raw: Seq<char>) -> Seq<char> {
    let t = trim(raw);
    if t.len() == 0 {
        "node-unknown"@
    } else {
        t.map_values(|c: char| token_char(c))
    }
}

pub fn sanitize_template_token(raw: &str) -> (r: String)
    ensures
        r@ == sanitize_spec(raw@),
{
    proof {
        reveal_strlit("_");
    }
    let t = trim_str(raw);
    let n = t.unicode_len();
    if n == 0 {
        return String::from_str("node-unknown");
    }
    let mut out = String::new();
    let mut i: usize = 0;
    while i < n
        invariant
            n == t@.len(),
            i <= n,
            out@ == t@.take(i as int).map_values(|c: char| token_char(c)),
        decreases n - i,
    {
        let c = t.get_char(i);
        let ghost prev = out@;
        if char_is_alnum(c) || c == '-' || c == '_' || c == '.' {
            out.append(t.substring_char(i, i + 1));
            assert(t@.subrange(i as int, i + 1) =~= seq![c]);
            assert(out@ =~= prev.push(token_char(c)));
        } else {
            out.append("_");
            proof {
                reveal_strlit("_");
            }
            assert("_"@ =~= seq!['_']);
            assert(out@ =~= prev.push(token_char(c)));
        }
        assert(t@.take(i + 1) =~= t@.take(i as int).push(c));
        assert(t@.take(i + 1).map_values(|c: char| token_char(c)) =~= t@.take(i as int).map_values(
            |c: char| token_char(c),
        ).push(token_char(c)));
        i = i + 1;
    }
    assert(t@.take(n as int) =~= t@);
    out
}

/// Clock tokens a template may use.
#[derive(Clone, Debug)]
pub struct TemplateClock {
    /// `YYYY-MM-DD`
    pub date: String,
    /// `HHMMSS`
    pub time: String,
    /// `{date}T{time}`
    pub datetime: String,
    /// `HH:MM:SS.mmm`
    pub ut: String,
}

/// Placeholders replaced in order: `{date}`, `{time}`, `{datetime}`, `~UT`,
/// `{log_name}`, `{node_id}`, `{pid}`.
pub open spec fn template_expanded(
    template: Seq<char>,
    clock: TemplateClock,
    log_name: Seq<char>,
    node_token: Seq<char>,
    pid: Seq<char>,
) -> Seq<char> {
    replace_all(
        replace_all(
            replace_all(
                replace_all(
                    replace_all(
                        replace_all(
                            replace_all(template, "{date}"@, clock.date@),
                            "{time}"@,
                            clock.time@,
                        ),
                        "{datetime}"@,
                        clock.datetime@,
                    ),
                    "~UT"@,
                    clock.ut@,
                ),
                "{log_name}"@,
                log_name,
            ),
            "{node_id}"@,
            node_token,
        ),
        "{pid}"@,
        pid,
    )
}

/// A `..` segment starts at `i` (bounded by `/` or the ends of `s`).
pub open spec fn parent_at(s: Seq<char>, i: int) -> bool {
    &&& 0 <= i
    &&& i + 2 <= s.len()
    &&& i == 0 || s[i - 1] == '/'
    &&& s[i] == '.'
    &&& s[i + 1] == '.'
    &&& i + 2 == s.len() || s[i + 2] == '/'
}

/// `s` has a `..` path segment (between `/` separators or the ends).
pub open spec fn has_parent_segment(s: Seq<char>) -> bool {
    exists|i: int| #[trigger] parent_at(s, i)
}

/// Expands a log file template to a path relative to the log directory.
/// Fails on a blank log name, an empty expansion, an absolute path, or a
/// `..` segment.
pub open spec fn template_result(
    template: Seq<char>,
    clock: TemplateClock,
    log_name: Seq<char>,
    node_id: Option<Seq<char>>,
    pid: Seq<char>,
) -> Result<Seq<char>, Seq<char>> {
    if is_blank(log_name) {
        Err("log name must not be empty"@)
    } else {
        let token = sanitize_spec(
            match node_id {
                Some(n) => n,
                None => "node-unknown"@,
            },
        );
        let e = template_expanded(template, clock, log_name, token, pid);
        if e.len() == 0 {
            Err("log template expanded to empty path"@)
        } else if e[0] == '/' {
            Err("log template must be a relative path"@)
        } else if has_parent_segment(e) {
            Err("log template must not contain '..'"@)
        } else {
            Ok(e)
        }
    }
}

fn has_parent_segment_exec(s: &str) -> (r: bool)
    ensures
        r == has_parent_segment(s@),
{
    let n = s.unicode_len();
    let mut i: usize = 0;
    while i < n
        invariant
            n == s@.len(),
            i <= n,
            forall|j: int| 0 <= j < i ==> !#[trigger] parent_at(s@, j),
        decreases n - i,
    {
        let mut hit = false;
        if n - i >= 2 {
            let at_start = i == 0 || s.get_char(i - 1) == '/';
            let c0 = s.get_char(i);
            let c1 = s.get_char(i + 1);
            let at_end = i + 2 == n || s.get_char(i + 2) == '/';
            hit = at_start && c0 == '.' && c1 == '.' && at_end;
        }
        assert(hit == parent_at(s@, i as int));
        if hit {
            return true;
        }
        i = i + 1;
    }
    assert forall|j: int| !#[trigger] parent_at(s@, j) by {
        if 0 <= j < n {
        }
    }
    false
}

pub fn expand_log_template(
    template: &str,
    clock: &TemplateClock,
    log_name: &str,
    node_id: Option<&str>,
    pid: &str,
) -> (r: Result<String, String>)
    ensures
        match template_result(
            template@,
            *clock,
            log_name@,
            match node_id {
                Some(n) => Some(n@),
                None => None,
            },
            pid@,
        ) {
            Ok(e) => r matches Ok(v) && v@ == e,
            Err(m) => r matches Err(v) && v@ == m,
        },
{
    proof {
        reveal_strlit("{date}");
        reveal_strlit("{time}");
        reveal_strlit("{datetime}");
        reveal_strlit("~UT");
        reveal_strlit("{log_name}");
        reveal_strlit("{node_id}");
        reveal_strlit("{pid}");
        reveal_strlit("node-unknown");
    }
    if crate::text::str_is_blank(log_name) {
        return Err(String::from_str("log name must not be empty"));
    }
    let raw_id = match node_id {
        Some(n) => n,
        None => "node-unknown",
    };
    let token = sanitize_template_token(raw_id);
    let e1 = replace_str(template, "{date}", clock.date.as_str());
    let e2 = replace_str(e1.as_str(), "{time}", clock.time.as_str());
    let e3 = replace_str(e2.as_str(), "{datetime}", clock.datetime.as_str());
    let e4 = replace_str(e3.as_str(), "~UT", clock.ut.as_str());
    let e5 = replace_str(e4.as_str(), "{log_name}", log_name);
    let e6 = replace_str(e5.as_str(), "{node_id}", token.as_str());
    let e7 = replace_str(e6.as_str(), "{pid}", pid);
    let n = e7.as_str().unicode_len();
    if n == 0 {
        return Err(String::from_str("log template expanded to empty path"));
    }
    if e7.as_str().get_char(0) == '/' {
        return Err(String::from_str("log template must be a relative path"));
    }
    if has_parent_segment_exec(e7.as_str()) {
        return Err(String::from_str("log template must not contain '..'"));
    }
    Ok(e7)
}

// ---------------------------------------------------------------------------
// Calendar dates for template tokens
// ---------------------------------------------------------------------------

/// Gregorian calendar date of a day count since 1970-01-01, by the
/// era-based civil-from-days conversion (eras of 400 years, years starting
/// in March): `(year, month, day)`.
pub open spec fn civil_spec(days: u64) -> (int, int, int) {
    let z = days + 719_468;
    let era = z / 146_097;
    let doe = z - era * 146_097;
    let yoe = (doe - doe / 1_460 + doe / 36_524 - doe / 146_096) / 365;
    let y = yoe + era * 400;
    let doy = doe - (365 * yoe + yoe / 4 - yoe / 100);
    let mp = (5 * doy + 2) / 153;
    let d = doy - (153 * mp + 2) / 5 + 1;
    let m = if mp < 10 {
        mp + 3
    } else {
        mp - 9
    };
    (y + if m <= 2 {
        1int
    } else {
        0int
    }, m, d)
}

/// Calendar date of a day count since the Unix epoch (days on or after
/// 1970-01-01).
pub fn civil_from_days(days: u64) -> (r: (u64, u64, u64))
    requires
        days <= u64::MAX - 719_468,
    ensures
        r.0 == civil_spec(days).0,
        r.1 == civil_spec(days).1,
        r.2 == civil_spec(days).2,
        1 <= r.1 <= 12,
        1 <= r.2 <= 31,
{
    let z = days + 719_468;
    let era = z / 146_097;
    assert(era * 146_097 <= z) by (nonlinear_arith)
        requires
            era == z / 146_097,
    ;
    let doe = z - era * 146_097;
    assert(doe < 146_097) by (nonlinear_arith)
        requires
            era == z / 146_097,
            doe == z - era * 146_097,
    ;
    let yoe = (doe - doe / 1_460 + doe / 36_524 - doe / 146_096) / 365;
    assert(yoe <= 400);
    assert(365 * yoe + yoe / 4 - yoe / 100 <= doe) by (nonlinear_arith)
        requires
            doe < 146_097,
            yoe == (doe - doe / 1_460 + doe / 36_524 - doe / 146_096) / 365,
    ;
    let y = yoe + era * 400;
    let doy = doe - (365 * yoe + yoe / 4 - yoe / 100);
    assert(doy <= 365) by (nonlinear_arith)
        requires
            doe < 146_097,
            yoe == (doe - doe / 1_460 + doe / 36_524 - doe / 146_096) / 365,
            doy == doe - (365 * yoe + yoe / 4 - yoe / 100),
    ;
    let mp = (5 * doy + 2) / 153;
    assert((153 * mp + 2) / 5 <= doy) by (nonlinear_arith)
        requires
            mp == (5 * doy + 2) / 153,
            doy < 146_097,
    ;
    assert(mp <= 11);
    assert(doy - (153 * mp + 2) / 5 <= 30) by (nonlinear_arith)
        requires
            mp == (5 * doy + 2) / 153,
            mp <= 11,
            doy <= 365,
    ;
    let d = doy - (153 * mp + 2) / 5 + 1;
    let m = if mp < 10 {
        mp + 3
    } else {
        mp - 9
    };
    let year = y + if m <= 2 {
        1
    } else {
        0
    };
    (year, m, d)
}


} // verus!
