//! The node's startup phase: loading the snapshot, then ready (or ready
//! but degraded when the snapshot could not be used), and what the seal
//! loop and the request gates read from it.

use vstd::prelude::*;
use vstd::string::*;

verus! {

/// Startup phase of the node.
#[derive(Clone, Copy, Debug, PartialEq, Eq, Structural)]
pub enum InitPhase {
    Starting,
    LoadingSnapshot,
    Ready,
    /// Serving, but snapshot persistence failed (load or save).
    ReadyDegraded,
}

pub open spec fn phase_label(p: InitPhase) -> Seq<char> {
    match p {
        InitPhase::Starting => "starting"@,
        InitPhase::LoadingSnapshot => "loading_snapshot"@,
        InitPhase::Ready => "ready"@,
        InitPhase::ReadyDegraded => "ready_degraded"@,
    }
}

impl InitPhase {
    /// Wire name of the phase.
    pub fn as_str(self) -> (r: &'static str)
        ensures
            r@ == phase_label(self),
    {
        match self {
            InitPhase::Starting => "starting",
            InitPhase::LoadingSnapshot => "loading_snapshot",
            InitPhase::Ready => "ready",
            InitPhase::ReadyDegraded => "ready_degraded",
        }
    }
}

/// Startup state: the phase, the snapshot file in use and the snapshot
/// error that degraded the node.
#[derive(Clone, Debug)]
pub struct InitState {
    pub phase: InitPhase,
    pub snapshot_file: Option<String>,
    pub snapshot_error: Option<String>,
}

impl InitState {
    /// Loading the snapshot at `path`.
    pub fn loading(path: Option<String>) -> (r: Self)
        ensures
            r.phase == InitPhase::LoadingSnapshot,
            r.snapshot_file == path,
            r.snapshot_error is None,
    {
        InitState { phase: InitPhase::LoadingSnapshot, snapshot_file: path, snapshot_error: None }
    }

    /// Ready on the snapshot at `path`.
    pub fn ready(path: Option<String>) -> (r: Self)
        ensures
            r.phase == InitPhase::Ready,
            r.snapshot_file == path,
            r.snapshot_error is None,
    {
        InitState { phase: InitPhase::Ready, snapshot_file: path, snapshot_error: None }
    }

    /// Ready, but the snapshot at `path` failed with `err`.
    pub fn ready_degraded(path: Option<String>, err: String) -> (r: Self)
        ensures
            r.phase == InitPhase::ReadyDegraded,
            r.snapshot_file == path,
            r.snapshot_error == Some(err),
    {
        InitState { phase: InitPhase::ReadyDegraded, snapshot_file: path, snapshot_error: Some(err) }
    }

    /// Requests are served once the node is ready, degraded or not.
    pub fn is_ready(&self) -> (r: bool)
        ensures
            r == (self.phase == InitPhase::Ready || self.phase == InitPhase::ReadyDegraded),
    {
        match self.phase {
            InitPhase::Ready | InitPhase::ReadyDegraded => true,
            _ => false,
        }
    }

    /// The chain may advance (seal) once the node is ready, degraded or not.
    pub fn allows_chain_progress(&self) -> (r: bool)
        ensures
            r == (self.phase == InitPhase::Ready || self.phase == InitPhase::ReadyDegraded),
    {
        self.is_ready()
    }
}

/// Why the seal loop cannot seal yet, while the node is starting or
/// loading its snapshot.
pub fn init_blocked_reason(phase: InitPhase) -> (r: Option<&'static str>)
    ensures
        match phase {
            InitPhase::LoadingSnapshot => r matches Some(s) && s@ == "loading_snapshot"@,
            InitPhase::Starting => r matches Some(s) && s@ == "starting"@,
            _ => r is None,
        },
{
    match phase {
        InitPhase::LoadingSnapshot => Some("loading_snapshot"),
        InitPhase::Starting => Some("starting"),
        _ => None,
    }
}

/// Seconds between two cluster preparation summaries.
pub const PREP_SUMMARY_IV_SEC: u64 = 30;

/// Whether the next preparation summary is due: 30 s since the last one.
pub fn prep_log_due(last_at_ms: u64, now_ms: u64) -> (r: bool)
    ensures
        r == ((if now_ms >= last_at_ms {
            now_ms - last_at_ms
        } else {
            0
        }) >= PREP_SUMMARY_IV_SEC * 1000),
{
    let elapsed = if now_ms >= last_at_ms {
        now_ms - last_at_ms
    } else {
        0
    };
    elapsed >= PREP_SUMMARY_IV_SEC * 1000
}

// ---------------------------------------------------------------------------
// After the snapshot load
// ---------------------------------------------------------------------------

/// How the startup snapshot load ended.
#[derive(Clone, Debug, PartialEq, Eq)]
pub enum SnapLoadResult {
    /// No snapshot persistence is configured.
    NoBackend,
    /// The snapshot was loaded up to tip height `tip_h`.
    Loaded { tip_h: u64 },
    /// The backend holds no snapshot.
    Empty,
    /// The snapshot could not be turned into runtime state.
    IntoRuntimeFailed(String),
    /// The backend could not load.
    LoadFailed(String),
}

/// What startup does after the snapshot load.
#[derive(Clone, Debug)]
pub struct SnapLoadStep {
    pub init: InitState,
    /// The height of the last snapshot, where it becomes known.
    pub last_snapshot_height: Option<u64>,
    /// The process exits (only on a failed load, and only when configured
    /// to exit on snapshot errors).
    pub exit: bool,
}

/// State after the snapshot load at `path` (`data_file` where no backend is
/// configured): ready after a load, an empty store or no backend; ready but
/// degraded after a failure, exiting when `exit_on_fatal` is set.
pub fn after_snapshot_load(
    path: Option<String>,
    data_file: Option<String>,
    result: SnapLoadResult,
    exit_on_fatal: bool,
) -> (r: SnapLoadStep)
    ensures
        match result {
            SnapLoadResult::NoBackend => r.init.phase == InitPhase::Ready && r.init.snapshot_file
                == data_file && r.init.snapshot_error is None && r.last_snapshot_height is None
                && !r.exit,
            SnapLoadResult::Loaded { tip_h } => r.init.phase == InitPhase::Ready
                && r.init.snapshot_file == path && r.init.snapshot_error is None
                && r.last_snapshot_height == Some(tip_h) && !r.exit,
            SnapLoadResult::Empty => r.init.phase == InitPhase::Ready && r.init.snapshot_file
                == path && r.init.snapshot_error is None && r.last_snapshot_height == Some(0u64)
                && !r.exit,
            SnapLoadResult::IntoRuntimeFailed(e) => r.init.phase == InitPhase::ReadyDegraded
                && r.init.snapshot_file == path && r.init.snapshot_error == Some(e)
                && r.last_snapshot_height is None && r.exit == exit_on_fatal,
            SnapLoadResult::LoadFailed(e) => r.init.phase == InitPhase::ReadyDegraded
                && r.init.snapshot_file == path && r.init.snapshot_error == Some(e)
                && r.last_snapshot_height is None && r.exit == exit_on_fatal,
        },
{
    match result {
        SnapLoadResult::NoBackend => SnapLoadStep {
            init: InitState::ready(data_file),
            last_snapshot_height: None,
            exit: false,
        },
        SnapLoadResult::Loaded { tip_h } => SnapLoadStep {
            init: InitState::ready(path),
            last_snapshot_height: Some(tip_h),
            exit: false,
        },
        SnapLoadResult::Empty => SnapLoadStep {
            init: InitState::ready(path),
            last_snapshot_height: Some(0),
            exit: false,
        },
        SnapLoadResult::IntoRuntimeFailed(e) => SnapLoadStep {
            init: InitState::ready_degraded(path, e),
            last_snapshot_height: None,
            exit: exit_on_fatal,
        },
        SnapLoadResult::LoadFailed(e) => SnapLoadStep {
            init: InitState::ready_degraded(path, e),
            last_snapshot_height: None,
            exit: exit_on_fatal,
        },
    }
}

/// How a JSON snapshot stores its blocks.
#[derive(Clone, Copy, Debug, PartialEq, Eq)]
pub enum BlocksStored {
    Epochs,
    Inline,
}

/// Label of the startup load mode of a JSON-file snapshot.
pub fn snap_startup_mode(stored: BlocksStored) -> (r: &'static str)
    ensures
        r@ == match stored {
            BlocksStored::Epochs => "epochs"@,
            BlocksStored::Inline => "inline"@,
        },
{
    match stored {
        BlocksStored::Epochs => "epochs",
        BlocksStored::Inline => "inline",
    }
}

/// Whether the checkpoint summary is rewritten after a load that verified
/// the full chain, and why (or why not).
#[derive(Clone, Copy, Debug, PartialEq, Eq)]
pub enum SummaryAlign {
    /// Skipped: no full verification ran.
    NotVerified,
    /// Skipped: no epoch manifest.
    ManifestMissing,
    /// Skipped: the manifest could not be read.
    ManifestReadErr,
    /// Skipped: the manifest's tip is not the loaded tip.
    TipMismatch,
    /// Rewritten, because the summary lagged the manifest (else the
    /// verify-chain flag asked for it).
    Align { lag_forced: bool },
}

/// The summary is rewritten only after a full verification, with a
/// readable manifest whose canonical height is the loaded tip.
pub fn summary_align(
    used_full_verify: bool,
    lag_forced_verify: bool,
    manifest_canonical_h: Result<Option<u64>, ()>,
    tip_h: u64,
) -> (r: SummaryAlign)
    ensures
        r == if !used_full_verify {
            SummaryAlign::NotVerified
        } else {
            match manifest_canonical_h {
                Err(()) => SummaryAlign::ManifestReadErr,
                Ok(None) => SummaryAlign::ManifestMissing,
                Ok(Some(c)) => if c != tip_h {
                    SummaryAlign::TipMismatch
                } else {
                    SummaryAlign::Align { lag_forced: lag_forced_verify }
                },
            }
        },
{
    if !used_full_verify {
        return SummaryAlign::NotVerified;
    }
    match manifest_canonical_h {
        Err(()) => SummaryAlign::ManifestReadErr,
        Ok(None) => SummaryAlign::ManifestMissing,
        Ok(Some(c)) => if c != tip_h {
            SummaryAlign::TipMismatch
        } else {
            SummaryAlign::Align { lag_forced: lag_forced_verify }
        },
    }
}

// ---------------------------------------------------------------------------
// Periodic snapshot saves
// ---------------------------------------------------------------------------

/// How a periodic save persists the seal state.
#[derive(Clone, Copy, Debug, PartialEq, Eq)]
pub enum SealPersistMode {
    /// Full state, blocks inline.
    Periodic,
    /// Summary only: the block writer already appended the blocks.
    PeriodicSummary,
}

/// Whether the sealed height is an autosnapshot checkpoint, and how it is
/// saved: only at checkpoint heights; as a summary when a block writer
/// keeps the epoch files, in full otherwise.
pub fn periodic_save_mode(height: u64, has_writer: bool) -> (r: Option<SealPersistMode>)
    ensures
        r is None <==> !(height > 0 && height % crate::lifecycle::AUTOSNAPSHOT_BLOCK_INTERVAL == 0),
        r matches Some(m) ==> m == if has_writer {
            SealPersistMode::PeriodicSummary
        } else {
            SealPersistMode::Periodic
        },
{
    if !crate::lifecycle::autosnap_hit(height) {
        return None;
    }
    if has_writer {
        Some(SealPersistMode::PeriodicSummary)
    } else {
        Some(SealPersistMode::Periodic)
    }
}

/// What follows a periodic save at `height` to the snapshot at `path`.
#[derive(Clone, Debug)]
pub struct SnapSaveStep {
    pub init: InitState,
    /// The new last-snapshot height, after a save that went through.
    pub last_snapshot_height: Option<u64>,
    /// Undo the seal's state changes (a failed save with a backup taken).
    pub rollback: bool,
}

/// After a periodic save: ready with the new snapshot height when it went
/// through; otherwise degraded with the error, rolling the seal back when
/// a backup was taken.
pub fn after_periodic_save(
    path: Option<String>,
    result: Result<(), String>,
    height: u64,
    has_backup: bool,
) -> (r: SnapSaveStep)
    ensures
        match result {
            Ok(()) => r.init.phase == InitPhase::Ready && r.init.snapshot_file == path
                && r.init.snapshot_error is None && r.last_snapshot_height == Some(height)
                && !r.rollback,
            Err(e) => r.init.phase == InitPhase::ReadyDegraded && r.init.snapshot_file == path
                && r.init.snapshot_error == Some(e) && r.last_snapshot_height is None && r.rollback
                == has_backup,
        },
{
    match result {
        Ok(()) => SnapSaveStep {
            init: InitState::ready(path),
            last_snapshot_height: Some(height),
            rollback: false,
        },
        Err(e) => SnapSaveStep {
            init: InitState::ready_degraded(path, e),
            last_snapshot_height: None,
            rollback: has_backup,
        },
    }
}

/// What a request does when the snapshot save after its state change
/// fails.
#[derive(Clone, Copy, Debug, PartialEq, Eq, Structural)]
pub enum SaveFailPolicy {
    /// Keep the change in memory and mark persistence degraded.
    KeepInMemory,
    /// Undo a committed transaction; the init state stays as it was.
    UndoCommit,
    /// Undo a roaming finalize and mark persistence degraded.
    UndoFinalize,
    /// Undo a handoff registration and mark persistence degraded.
    UndoRegister,
}

/// Whether a failed save undoes the change.
pub open spec fn save_fail_undoes(p: SaveFailPolicy) -> bool {
    p != SaveFailPolicy::KeepInMemory
}

/// Whether a failed save marks persistence degraded.
pub open spec fn save_fail_degrades(p: SaveFailPolicy) -> bool {
    p != SaveFailPolicy::UndoCommit
}

/// The 500 answer's message for a failed save with error `e`.
pub open spec fn save_fail_msg(p: SaveFailPolicy, e: Seq<char>) -> Seq<char> {
    match p {
        SaveFailPolicy::KeepInMemory => "state persisted in memory but snapshot save failed: "@ + e,
        SaveFailPolicy::UndoCommit => "tx commit rolled back: snapshot save failed: "@ + e,
        SaveFailPolicy::UndoFinalize => "snapshot save failed: "@ + e,
        SaveFailPolicy::UndoRegister => "state rolled back; snapshot save failed: "@ + e,
    }
}

/// What follows the snapshot save after a request changed the state.
#[derive(Debug)]
pub struct StateSaveStep {
    /// Undo the change.
    pub rollback: bool,
    /// The new init state, where it changes.
    pub init: Option<InitState>,
    pub answer: Result<(), (u16, String)>,
}

/// After a request changed the state and saved the snapshot (`None` where
/// no save was due): a save that went through makes the node ready with
/// that snapshot; a failed one answers 500 and undoes the change and marks
/// persistence degraded as `policy` says.
pub fn after_state_save(save: Option<(Option<String>, Result<(), String>)>, policy: SaveFailPolicy) -> (r:
    StateSaveStep)
    ensures
        match save {
            None => !r.rollback && r.init is None && r.answer is Ok,
            Some((path, Ok(()))) => !r.rollback && (r.init matches Some(st) && st.phase
                == InitPhase::Ready && st.snapshot_file == path && st.snapshot_error is None)
                && r.answer is Ok,
            Some((path, Err(e))) => {
                &&& r.rollback == save_fail_undoes(policy)
                &&& save_fail_degrades(policy) ==> (r.init matches Some(st) && st.phase
                    == InitPhase::ReadyDegraded && st.snapshot_file == path && st.snapshot_error
                    == Some(e))
                &&& !save_fail_degrades(policy) ==> r.init is None
                &&& r.answer matches Err((c, m)) && c == 500 && m@ == save_fail_msg(policy, e@)
            },
        },
{
    proof {
        reveal_strlit("state persisted in memory but snapshot save failed: ");
        reveal_strlit("tx commit rolled back: snapshot save failed: ");
        reveal_strlit("snapshot save failed: ");
        reveal_strlit("state rolled back; snapshot save failed: ");
    }
    match save {
        None => StateSaveStep { rollback: false, init: None, answer: Ok(()) },
        Some((path, Ok(()))) => StateSaveStep {
            rollback: false,
            init: Some(InitState::ready(path)),
            answer: Ok(()),
        },
        Some((path, Err(e))) => {
            let mut m = match policy {
                SaveFailPolicy::KeepInMemory => String::from_str(
                    "state persisted in memory but snapshot save failed: ",
                ),
                SaveFailPolicy::UndoCommit => String::from_str(
                    "tx commit rolled back: snapshot save failed: ",
                ),
                SaveFailPolicy::UndoFinalize => String::from_str("snapshot save failed: "),
                SaveFailPolicy::UndoRegister => String::from_str(
                    "state rolled back; snapshot save failed: ",
                ),
            };
            m.append(e.as_str());
            let init = match policy {
                SaveFailPolicy::UndoCommit => None,
                _ => Some(InitState::ready_degraded(path, e)),
            };
            StateSaveStep {
                rollback: policy != SaveFailPolicy::KeepInMemory,
                init,
                answer: Err((500, m)),
            }
        },
    }
}

/// Outcome of handing a sealed block to the block writer: the enqueue
/// error, if any, and then the outcome of the synchronous append that
/// recovers from it (`None` where no snapshot backend can recover).
pub open spec fn enqueue_outcome(
    enqueue: Result<(), Seq<char>>,
    recovery: Option<Result<(), Seq<char>>>,
) -> Result<(), Seq<char>> {
    match enqueue {
        Ok(()) => Ok(()),
        Err(e) => match recovery {
            None => Err("block enqueue failed without snapshot backend: "@ + e),
            Some(Ok(())) => Ok(()),
            Some(Err(re)) => Err("block enqueue failed: "@ + e + "; synchronous recovery failed: "@ + re),
        },
    }
}

/// Outcome of queueing a sealed block (see [`enqueue_outcome`]).
pub fn sealed_block_enqueued(enqueue: Result<(), String>, recovery: Option<Result<(), String>>) -> (r:
    Result<(), String>)
    ensures
        match enqueue_outcome(
            match enqueue {
                Ok(()) => Ok(()),
                Err(e) => Err(e@),
            },
            match recovery {
                None => None,
                Some(Ok(())) => Some(Ok(())),
                Some(Err(e)) => Some(Err(e@)),
            },
        ) {
            Ok(()) => r is Ok,
            Err(m) => r matches Err(x) && x@ == m,
        },
{
    proof {
        reveal_strlit("block enqueue failed without snapshot backend: ");
        reveal_strlit("block enqueue failed: ");
        reveal_strlit("; synchronous recovery failed: ");
    }
    match enqueue {
        Ok(()) => Ok(()),
        Err(e) => match recovery {
            None => {
                let mut m = String::from_str("block enqueue failed without snapshot backend: ");
                m.append(e.as_str());
                Err(m)
            },
            Some(Ok(())) => Ok(()),
            Some(Err(re)) => {
                let mut m = String::from_str("block enqueue failed: ");
                m.append(e.as_str());
                m.append("; synchronous recovery failed: ");
                m.append(re.as_str());
                Err(m)
            },
        },
    }
}

} // verus!
