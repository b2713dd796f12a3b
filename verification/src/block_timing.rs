//! Bookkeeping of the block timing journal: the keys under which pending
//! records wait for their block, and what survives when the pending map and
//! the journal of finished rows are trimmed.

use crate::text::{
    dec, find_char, lemma_parse_dec, lemma_seg_len, lemma_seg_len_props, parse_unsigned,
    parse_unsigned_str, push_dec, seg_len,
};
use vstd::prelude::*;
use vstd::string::*;

verus! {

/// Pending records kept once the map is written back.
pub const PEND_MAX_RECORDS: usize = 1500;

/// Finished rows kept at the tail of the journal.
pub const JSONL_MAX_ROWS: usize = 1500;

// ---------------------------------------------------------------------------
// Keys of pending records
// ---------------------------------------------------------------------------

/// Key of the record of height `h`, round `r`: `"{h}:{r}"`.
pub open spec fn pending_key_spec(h: u64, r: u32) -> Seq<char> {
    dec(h as nat) + seq![':'] + dec(r as nat)
}

/// A decimal field, 0 where it does not parse within `max`.
pub open spec fn field_num(s: Seq<char>, max: nat) -> nat {
    match parse_unsigned(s, 10, max) {
        Some(v) => v,
        None => 0,
    }
}

/// Height and round read back from a key: the first two `:`-separated
/// fields, each 0 where missing or not a number of its type.
pub open spec fn parse_pending_key_spec(k: Seq<char>) -> (u64, u32) {
    let n = seg_len(k, ':');
    let h = field_num(k.take(n as int), u64::MAX as nat);
    let r = if n < k.len() {
        let rest = k.skip(n as int + 1);
        field_num(rest.take(seg_len(rest, ':') as int), u32::MAX as nat)
    } else {
        0
    };
    (h as u64, r as u32)
}

/// The key of a pending record.
pub fn pending_key(h: u64, r: u32) -> (k: String)
    ensures
        k@ == pending_key_spec(h, r),
{
    let mut out = String::new();
    push_dec(&mut out, h);
    proof {
        reveal_strlit(":");
    }
    out.append(":");
    push_dec(&mut out, r as u64);
    assert(out@ =~= pending_key_spec(h, r));
    out
}

fn parse_field(s: &str, max: u64) -> (v: u64)
    requires
        max >= 15,
    ensures
        v as nat == field_num(s@, max as nat),
        v <= max,
{
    match parse_unsigned_str(s, 10, max) {
        Some(v) => v,
        None => 0,
    }
}

/// Height and round of a pending record's key.
pub fn parse_pending_key(key: &str) -> (r: (u64, u32))
    ensures
        r == parse_pending_key_spec(key@),
{
    let len = key.unicode_len();
    let i = find_char(key, 0, ':');
    proof {
        lemma_seg_len(key@, ':', i as nat);
    }
    let head = key.substring_char(0, i);
    assert(head@ =~= key@.take(i as int));
    let h = parse_field(head, u64::MAX);
    if i >= len {
        return (h, 0);
    }
    let j = find_char(key, i + 1, ':');
    let ghost rest = key@.skip(i + 1);
    proof {
        lemma_seg_len(rest, ':', (j - i - 1) as nat);
    }
    let field = key.substring_char(i + 1, j);
    assert(field@ =~= rest.take((j - i - 1) as int));
    let r = parse_field(field, 4294967295u64);
    (h, r as u32)
}

/// A record's key reads back as its height and round.
pub proof fn lemma_pending_key_roundtrip(h: u64, r: u32)
    ensures
        parse_pending_key_spec(pending_key_spec(h, r)) == (h, r),
{
    let k = pending_key_spec(h, r);
    let a = dec(h as nat);
    let b = dec(r as nat);
    lemma_parse_dec(h as nat, u64::MAX as nat);
    lemma_parse_dec(r as nat, u32::MAX as nat);
    lemma_no_colon(h as nat);
    lemma_no_colon(r as nat);
    lemma_seg_len(k, ':', a.len());
    assert(k.take(a.len() as int) =~= a);
    let rest = k.skip(a.len() as int + 1);
    assert(rest =~= b);
    lemma_seg_len(rest, ':', b.len());
    assert(rest.take(b.len() as int) =~= b);
}

proof fn lemma_no_colon(n: nat)
    ensures
        forall|i: int| 0 <= i < dec(n).len() ==> dec(n)[i] != ':',
    decreases n,
{
    if n >= 10 {
        lemma_no_colon(n / 10);
        assert forall|i: int| 0 <= i < dec(n).len() implies dec(n)[i] != ':' by {
            if i < dec(n / 10).len() {
                assert(dec(n)[i] == dec(n / 10)[i]);
            }
        }
    }
}

// ---------------------------------------------------------------------------
// Trimming the pending map
// ---------------------------------------------------------------------------

/// Order of pending records: by height, then round.
pub open spec fn key_le(a: (u64, u32), b: (u64, u32)) -> bool {
    a.0 < b.0 || (a.0 == b.0 && a.1 <= b.1)
}

/// Number of `true` entries.
pub open spec fn count_true(s: Seq<bool>) -> nat
    decreases s.len(),
{
    if s.len() == 0 {
        0
    } else {
        count_true(s.drop_last()) + if s.last() {
            1nat
        } else {
            0nat
        }
    }
}

proof fn lemma_count_none(s: Seq<bool>)
    requires
        forall|i: int| 0 <= i < s.len() ==> !s[i],
    ensures
        count_true(s) == 0,
    decreases s.len(),
{
    if s.len() > 0 {
        lemma_count_none(s.drop_last());
    }
}

proof fn lemma_count_all(s: Seq<bool>)
    requires
        forall|i: int| 0 <= i < s.len() ==> s[i],
    ensures
        count_true(s) == s.len(),
    decreases s.len(),
{
    if s.len() > 0 {
        lemma_count_all(s.drop_last());
    }
}

proof fn lemma_count_set(s: Seq<bool>, i: int)
    requires
        0 <= i < s.len(),
        !s[i],
    ensures
        count_true(s.update(i, true)) == count_true(s) + 1,
    decreases s.len(),
{
    let u = s.update(i, true);
    if i < s.len() - 1 {
        assert(u.drop_last() =~= s.drop_last().update(i, true));
        lemma_count_set(s.drop_last(), i);
    } else {
        assert(u.drop_last() =~= s.drop_last());
    }
}

/// Which pending records a trim drops, given each record's height and
/// round: as many as exceed `max_records`, none of them later than a record
/// that stays (among records of equal key, either may go).
pub fn pending_drop(keys: &Vec<(u64, u32)>, max_records: usize) -> (drop: Vec<bool>)
    ensures
        drop@.len() == keys@.len(),
        count_true(drop@) == if keys@.len() > max_records {
            (keys@.len() - max_records) as nat
        } else {
            0
        },
        forall|i: int, j: int|
            0 <= i < drop@.len() && 0 <= j < drop@.len() && drop@[i] && !drop@[j] ==> key_le(
                keys@[i],
                keys@[j],
            ),
{
    let n = keys.len();
    let mut drop: Vec<bool> = Vec::new();
    let mut k: usize = 0;
    while k < n
        invariant
            n == keys@.len(),
            k <= n,
            drop@.len() == k,
            forall|i: int| 0 <= i < k ==> !drop@[i],
        decreases n - k,
    {
        drop.push(false);
        k = k + 1;
    }
    proof {
        lemma_count_none(drop@);
    }
    if n <= max_records {
        return drop;
    }
    let goal = n - max_records;
    let mut t: usize = 0;
    while t < goal
        invariant
            n == keys@.len(),
            goal == n - max_records,
            goal <= n,
            t <= goal,
            drop@.len() == n,
            count_true(drop@) == t,
            forall|i: int, j: int|
                0 <= i < n && 0 <= j < n && drop@[i] && !drop@[j] ==> key_le(keys@[i], keys@[j]),
        decreases goal - t,
    {
        let mut m: usize = n;
        let mut i: usize = 0;
        while i < n
            invariant
                n == keys@.len(),
                drop@.len() == n,
                i <= n,
                m == n || (m < i && !drop@[m as int]),
                m == n ==> forall|j: int| 0 <= j < i ==> drop@[j],
                m < n ==> forall|j: int| 0 <= j < i && !drop@[j] ==> key_le(keys@[m as int], keys@[j]),
            decreases n - i,
        {
            if !drop[i] {
                if m == n {
                    m = i;
                } else {
                    let (mh, mr) = keys[m];
                    let (ih, ir) = keys[i];
                    if ih < mh || (ih == mh && ir < mr) {
                        m = i;
                    }
                }
            }
            i = i + 1;
        }
        if m == n {
            proof {
                lemma_count_all(drop@);
            }
            assert(false);
        }
        let ghost before = drop@;
        proof {
            lemma_count_set(before, m as int);
        }
        drop.set(m, true);
        assert(drop@ =~= before.update(m as int, true));
        t = t + 1;
    }
    drop
}

// ---------------------------------------------------------------------------
// Trimming the journal of finished rows
// ---------------------------------------------------------------------------

/// One line of text: the field before the first `\n`, without the `\r`
/// of a `\r\n` ending.
pub open spec fn first_line(s: Seq<char>) -> Seq<char> {
    let n = seg_len(s, '\n');
    if n < s.len() && n > 0 && s[n - 1] == '\r' {
        s.take(n - 1)
    } else {
        s.take(n as int)
    }
}

/// The lines of a text as `str::lines` yields them: split at `\n` (or
/// `\r\n`), a final line ending adding no empty line.
pub open spec fn lines_of(s: Seq<char>) -> Seq<Seq<char>>
    decreases s.len(),
{
    if s.len() == 0 {
        Seq::empty()
    } else {
        let n = seg_len(s, '\n');
        if n < s.len() {
            seq![first_line(s)] + lines_of(s.skip(n as int + 1))
        } else {
            seq![first_line(s)]
        }
    }
}

/// Lines each followed by `\n`.
pub open spec fn unlines(ls: Seq<Seq<char>>) -> Seq<char>
    decreases ls.len(),
{
    if ls.len() == 0 {
        Seq::empty()
    } else {
        unlines(ls.drop_last()) + ls.last() + seq!['\n']
    }
}

/// What the journal is rewritten to, if it is: with more than `max_rows`
/// lines, the last `max_rows` lines joined by `\n` with a final `\n` (a lone
/// `\n` where none are kept); otherwise it stays as it is.
pub open spec fn journal_tail_spec(raw: Seq<char>, max_rows: nat) -> Option<Seq<char>> {
    let ls = lines_of(raw);
    if ls.len() <= max_rows {
        None
    } else if max_rows == 0 {
        Some(seq!['\n'])
    } else {
        Some(unlines(ls.skip(ls.len() - max_rows)))
    }
}

/// A line `lines_of` can give back unchanged: no `\n` in it and no `\r` at
/// its end.
pub open spec fn plain_line(l: Seq<char>) -> bool {
    &&& forall|i: int| 0 <= i < l.len() ==> l[i] != '\n'
    &&& (l.len() == 0 || l.last() != '\r')
}

proof fn lemma_unlines_front(ls: Seq<Seq<char>>)
    requires
        ls.len() > 0,
    ensures
        unlines(ls) == ls[0] + seq!['\n'] + unlines(ls.drop_first()),
    decreases ls.len(),
{
    if ls.len() == 1 {
        assert(ls.drop_last() =~= Seq::<Seq<char>>::empty());
        assert(ls.drop_first() =~= Seq::<Seq<char>>::empty());
        assert(unlines(ls) =~= ls[0] + seq!['\n'] + unlines(ls.drop_first()));
    } else {
        lemma_unlines_front(ls.drop_last());
        assert(ls.drop_last().drop_first() =~= ls.drop_first().drop_last());
        assert(ls.drop_first().last() == ls.last());
        assert(unlines(ls) =~= ls[0] + seq!['\n'] + unlines(ls.drop_first()));
    }
}

/// Lines written one per `\n` read back as the same lines.
pub proof fn lemma_lines_of_unlines(ls: Seq<Seq<char>>)
    requires
        forall|i: int| 0 <= i < ls.len() ==> plain_line(#[trigger] ls[i]),
    ensures
        lines_of(unlines(ls)) == ls,
    decreases ls.len(),
{
    if ls.len() == 0 {
        assert(unlines(ls) =~= Seq::<char>::empty());
    } else {
        lemma_unlines_front(ls);
        let rest = ls.drop_first();
        assert forall|i: int| 0 <= i < rest.len() implies plain_line(#[trigger] rest[i]) by {
            assert(rest[i] == ls[i + 1]);
        }
        lemma_lines_of_unlines(rest);
        let l = ls[0];
        assert(plain_line(ls[0]));
        let s = unlines(ls);
        assert(s == l + seq!['\n'] + unlines(rest));
        lemma_seg_len(s, '\n', l.len());
        assert(s.take(l.len() as int) =~= l);
        assert(s.skip(l.len() as int + 1) =~= unlines(rest));
        assert(first_line(s) == l);
        assert(lines_of(s) =~= seq![l] + rest);
    }
}

proof fn lemma_lines_have_no_newline(s: Seq<char>)
    ensures
        forall|i: int, j: int|
            0 <= i < lines_of(s).len() && 0 <= j < lines_of(s)[i].len() ==> lines_of(s)[i][j] != '\n',
    decreases s.len(),
{
    if s.len() > 0 {
        let n = seg_len(s, '\n');
        lemma_seg_len_props(s, '\n');
        if n < s.len() {
            lemma_lines_have_no_newline(s.skip(n as int + 1));
        }
        let ls = lines_of(s);
        assert forall|i: int, j: int|
            0 <= i < ls.len() && 0 <= j < ls[i].len() implies ls[i][j] != '\n' by {
            if i == 0 {
                assert(ls[0] == first_line(s));
                assert(first_line(s)[j] == s[j]);
            } else {
                assert(ls[i] == lines_of(s.skip(n as int + 1))[i - 1]);
            }
        }
    }
}

/// Read back, a trimmed journal holds exactly its last `max_rows` lines
/// (for lines that do not end in `\r`).
pub proof fn lemma_journal_tail_reads_back(raw: Seq<char>, max_rows: nat)
    requires
        max_rows > 0,
        journal_tail_spec(raw, max_rows) is Some,
        forall|i: int| 0 <= i < lines_of(raw).len() ==> {
            let l = #[trigger] lines_of(raw)[i];
            l.len() == 0 || l.last() != '\r'
        },
    ensures
        lines_of(journal_tail_spec(raw, max_rows)->0) == lines_of(raw).skip(
            lines_of(raw).len() - max_rows,
        ),
{
    let ls = lines_of(raw);
    let kept = ls.skip(ls.len() - max_rows);
    lemma_lines_have_no_newline(raw);
    assert forall|i: int| 0 <= i < kept.len() implies plain_line(#[trigger] kept[i]) by {
        assert(kept[i] == ls[i + ls.len() - max_rows]);
    }
    lemma_lines_of_unlines(kept);
}

fn split_lines(raw: &str) -> (out: Vec<String>)
    ensures
        out@.map_values(|x: String| x@) == lines_of(raw@),
{
    let len = raw.unicode_len();
    let mut out: Vec<String> = Vec::new();
    let mut pos: usize = 0;
    assert(raw@.skip(0) =~= raw@);
    assert(out@.map_values(|x: String| x@) + lines_of(raw@) =~= lines_of(raw@));
    while pos < len
        invariant
            len == raw@.len(),
            pos <= len,
            out@.map_values(|x: String| x@) + lines_of(raw@.skip(pos as int)) == lines_of(raw@),
        decreases len - pos,
    {
        let j = find_char(raw, pos, '\n');
        let ghost rest = raw@.skip(pos as int);
        let ghost before = out@.map_values(|x: String| x@);
        proof {
            lemma_seg_len(rest, '\n', (j - pos) as nat);
        }
        let end = if j < len && j > pos && raw.get_char(j - 1) == '\r' {
            j - 1
        } else {
            j
        };
        let line = raw.substring_char(pos, end);
        assert(line@ =~= first_line(rest));
        out.push(String::from_str(line));
        assert(out@.map_values(|x: String| x@) =~= before.push(first_line(rest)));
        if j < len {
            assert(rest.skip((j - pos) as int + 1) =~= raw@.skip(j + 1));
            assert(lines_of(rest) == seq![first_line(rest)] + lines_of(raw@.skip(j + 1)));
            assert(before + lines_of(rest) =~= before.push(first_line(rest)) + lines_of(
                raw@.skip(j + 1),
            ));
            pos = j + 1;
        } else {
            assert(lines_of(rest) == seq![first_line(rest)]);
            assert(raw@.skip(len as int) =~= Seq::<char>::empty());
            assert(before.push(first_line(rest)) + lines_of(raw@.skip(len as int)) =~= before
                + lines_of(rest));
            pos = len;
        }
    }
    assert(raw@.skip(len as int) =~= Seq::<char>::empty());
    assert(out@.map_values(|x: String| x@) =~= out@.map_values(|x: String| x@) + lines_of(
        raw@.skip(len as int),
    ));
    out
}

/// The journal's new text after a trim to `max_rows` finished rows, or
/// `None` where it keeps every line.
pub fn journal_tail(raw: &str, max_rows: usize) -> (r: Option<String>)
    ensures
        r matches Some(t) ==> journal_tail_spec(raw@, max_rows as nat) == Some(t@),
        r is None ==> journal_tail_spec(raw@, max_rows as nat) is None,
{
    let lines = split_lines(raw);
    let ghost ls = lines_of(raw@);
    let n = lines.len();
    if n <= max_rows {
        return None;
    }
    proof {
        reveal_strlit("\n");
    }
    if max_rows == 0 {
        return Some(String::from_str("\n"));
    }
    let start = n - max_rows;
    let mut out = String::new();
    let mut k: usize = start;
    assert(ls.subrange(start as int, start as int) =~= Seq::<Seq<char>>::empty());
    while k < n
        invariant
            n == lines@.len(),
            lines@.map_values(|x: String| x@) == ls,
            start <= k <= n,
            out@ == unlines(ls.subrange(start as int, k as int)),
        decreases n - k,
    {
        proof {
            reveal_strlit("\n");
        }
        let ghost old_out = out@;
        out.append(lines[k].as_str());
        out.append("\n");
        let ghost sub = ls.subrange(start as int, k + 1);
        assert(sub.drop_last() =~= ls.subrange(start as int, k as int));
        assert(sub.last() == lines@[k as int]@);
        assert(out@ =~= old_out + lines@[k as int]@ + seq!['\n']);
        assert(out@ =~= unlines(sub));
        k = k + 1;
    }
    assert(ls.subrange(start as int, n as int) =~= ls.skip(ls.len() - max_rows));
    Some(out)
}

} // verus!
