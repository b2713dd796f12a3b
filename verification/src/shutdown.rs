//! Graceful shutdown decisions: what a shutdown is reported as, and when
//! it must not persist the snapshot.

use vstd::prelude::*;
use vstd::string::*;

verus! {

/// What asked the node to stop.
#[derive(Clone, Copy, Debug, PartialEq, Eq)]
pub enum ShutdownReason {
    Rpc,
    /// A process signal, by name.
    Signal(&'static str),
    DebugStop,
}

impl ShutdownReason {
    /// Name of the reason in logs.
    pub fn key(self) -> (r: &'static str)
        ensures
            r@ == match self {
                ShutdownReason::Rpc => "rpc"@,
                ShutdownReason::Signal(kind) => kind@,
                ShutdownReason::DebugStop => "debug_stop"@,
            },
    {
        match self {
            ShutdownReason::Rpc => "rpc",
            ShutdownReason::Signal(kind) => kind,
            ShutdownReason::DebugStop => "debug_stop",
        }
    }
}

/// Why a shutdown leaves the snapshot as it is: while the node is still
/// starting or loading its snapshot, or when the chain tip is below the
/// height the epoch manifest already made canonical (`manifest_canonical_h`,
/// `None` where there is no readable manifest).
pub open spec fn skip_reason(loading: bool, tip_h: u64, manifest_canonical_h: Option<u64>) -> Option<
    Seq<char>,
> {
    if loading {
        Some("loading_snapshot"@)
    } else if manifest_canonical_h matches Some(c) && tip_h < c {
        Some("checkpoint_regress"@)
    } else {
        None
    }
}

/// Why a shutdown skips persisting the snapshot, if it does.
pub fn shutdown_skip_reason(loading: bool, tip_h: u64, manifest_canonical_h: Option<u64>) -> (r:
    Option<&'static str>)
    ensures
        match r {
            Some(s) => skip_reason(loading, tip_h, manifest_canonical_h) == Some(s@),
            None => skip_reason(loading, tip_h, manifest_canonical_h) is None,
        },
{
    if loading {
        return Some("loading_snapshot");
    }
    match manifest_canonical_h {
        Some(c) => if tip_h < c {
            Some("checkpoint_regress")
        } else {
            None
        },
        None => None,
    }
}

/// A shutdown request proceeds only the first time: `already` is whether
/// one was requested before.
pub fn shutdown_first_request(already: &mut bool) -> (proceed: bool)
    ensures
        proceed == !*old(already),
        *final(already),
{
    let first = !*already;
    *already = true;
    first
}

} // verus!
