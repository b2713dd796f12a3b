//! Bounded divergence dumps and the seal midpoint alignment used in debug runs.

use vstd::prelude::*;
use vstd::string::*;

verus! {

/// Target offset inside each second for midpoint-aligned sealing.
pub const MID_MS: u64 = 500;

/// Longest wait for the midpoint; a longer one is skipped.
pub const MID_WAIT_CAP_MS: u64 = 750;

/// Outcome of a divergence dump request.
#[derive(Debug, Clone, PartialEq, Eq)]
pub enum DumpWrite {
    Off,
    CapReached,
    /// The dump file was written at this path.
    Wrote(String),
}

/// Midpoint alignment applies unless deterministic seal time is on.
pub fn align_mid_on(debug_align_mid: bool, debug_det_seal_time: bool) -> (r: bool)
    ensures
        r == (debug_align_mid && !debug_det_seal_time),
{
    debug_align_mid && !debug_det_seal_time
}

pub open spec fn mid_wait_spec(now_ms: u64) -> u64 {
    let sub = now_ms % 1000;
    let wait = if sub <= MID_MS {
        (MID_MS - sub) as u64
    } else {
        (1000 - (sub - MID_MS)) as u64
    };
    if wait > MID_WAIT_CAP_MS {
        0
    } else {
        wait
    }
}

/// Milliseconds until the next `.500` mark of a second; zero when that is
/// further than `MID_WAIT_CAP_MS` away.
pub fn mid_wait_ms(now_ms: u64) -> (r: u64)
    ensures
        r == mid_wait_spec(now_ms),
        r <= MID_WAIT_CAP_MS,
        r > 0 ==> (now_ms + r) % 1000 == MID_MS,
{
    let sub = now_ms % 1_000;
    let wait = if sub <= MID_MS {
        MID_MS - sub
    } else {
        1_000 - (sub - MID_MS)
    };
    if wait > MID_WAIT_CAP_MS {
        0
    } else {
        wait
    }
}

/// Path `base_dir` joined with `b{height}.json` (no separator added after
/// an empty base or one that already ends in `/`).
pub open spec fn dump_path_spec(base_dir: Seq<char>, height: u64) -> Seq<char> {
    let name = "b"@ + crate::text::dec(height as nat) + ".json"@;
    if base_dir.len() == 0 {
        name
    } else if base_dir.last() == '/' {
        base_dir + name
    } else {
        base_dir + "/"@ + name
    }
}

pub fn dump_path(base_dir: &str, height: u64) -> (r: String)
    ensures
        r@ == dump_path_spec(base_dir@, height),
{
    let n = base_dir.unicode_len();
    let mut out = String::from_str(base_dir);
    if n > 0 && base_dir.get_char(n - 1) != '/' {
        out.append("/");
    }
    out.append("b");
    crate::text::push_dec(&mut out, height);
    out.append(".json");
    proof {
        reveal_strlit("/");
        reveal_strlit("b");
        reveal_strlit(".json");
    }
    assert(out@ =~= dump_path_spec(base_dir@, height));
    out
}

/// Directory for dump files: the configured one, else `blocks` beside the
/// data file (`data_parent` is the data file's directory), else `state/blocks`.
pub fn dump_dir(dir: Option<&str>, data_parent: Option<&str>) -> (r: String)
    ensures
        r@ == match dir {
            Some(d) => d@,
            None => match data_parent {
                Some(p) => if p@.len() == 0 {
                    "blocks"@
                } else if p@.last() == '/' {
                    p@ + "blocks"@
                } else {
                    p@ + "/blocks"@
                },
                None => "state/blocks"@,
            },
        },
{
    match dir {
        Some(d) => String::from_str(d),
        None => match data_parent {
            Some(p) => {
                let n = p.unicode_len();
                let mut out = String::from_str(p);
                if n > 0 && p.get_char(n - 1) != '/' {
                    out.append("/");
                }
                out.append("blocks");
                proof {
                    reveal_strlit("/");
                    reveal_strlit("blocks");
                    reveal_strlit("/blocks");
                }
                assert(out@ =~= if p@.len() == 0 {
                    "blocks"@
                } else if p@.last() == '/' {
                    p@ + "blocks"@
                } else {
                    p@ + "/blocks"@
                });
                out
            },
            None => String::from_str("state/blocks"),
        },
    }
}

/// Whether a divergence dump may be written: `Some` outcome when it may
/// not (dumps off, or `max_files` (at least one) already written), `None`
/// when the dump should proceed.
pub fn dump_admission(on_divergence: bool, max_files: u64, written: u64) -> (r: Option<DumpWrite>)
    ensures
        r == if !on_divergence {
            Some(DumpWrite::Off)
        } else if written >= (if max_files >= 1 { max_files } else { 1 }) {
            Some(DumpWrite::CapReached)
        } else {
            None
        },
{
    if !on_divergence {
        return Some(DumpWrite::Off);
    }
    let cap = if max_files >= 1 {
        max_files
    } else {
        1
    };
    if written >= cap {
        return Some(DumpWrite::CapReached);
    }
    None
}

} // verus!
