//! Decisions of the ordered block writer: appends run in arrival order
//! until one fails; after that every append is skipped, and flush and
//! shutdown answer with the failure.

use vstd::prelude::*;
use vstd::string::*;

verus! {

/// What the writer received (the block of an append stays with the caller).
#[derive(Clone, Copy, Debug, PartialEq, Eq, Structural)]
pub enum WriterCommand {
    Append,
    Flush,
    Shutdown,
}

/// What the writer does with a command.
#[derive(Debug, PartialEq, Eq)]
pub enum WriterAction {
    /// Append the block to the epoch files, then record the outcome.
    Append,
    /// Drop the block: an earlier append failed.
    Skip,
    /// Answer a flush.
    Reply(Result<(), String>),
    /// Answer a shutdown and stop.
    Stop(Result<(), String>),
}

pub enum WriterActionView {
    Append,
    Skip,
    Reply(Result<(), Seq<char>>),
    Stop(Result<(), Seq<char>>),
}

pub open spec fn result_view(r: Result<(), String>) -> Result<(), Seq<char>> {
    match r {
        Ok(()) => Ok(()),
        Err(e) => Err(e@),
    }
}

impl View for WriterAction {
    type V = WriterActionView;

    open spec fn view(&self) -> WriterActionView {
        match self {
            WriterAction::Append => WriterActionView::Append,
            WriterAction::Skip => WriterActionView::Skip,
            WriterAction::Reply(r) => WriterActionView::Reply(result_view(*r)),
            WriterAction::Stop(r) => WriterActionView::Stop(result_view(*r)),
        }
    }
}

/// What flush and shutdown answer: the pending failure, if any.
pub open spec fn report(err: Option<Seq<char>>) -> Result<(), Seq<char>> {
    match err {
        Some(e) => Err(e),
        None => Ok(()),
    }
}

/// The writer's action for `cmd` with pending failure `err`.
pub open spec fn writer_action(err: Option<Seq<char>>, cmd: WriterCommand) -> WriterActionView {
    match cmd {
        WriterCommand::Append => if err is Some {
            WriterActionView::Skip
        } else {
            WriterActionView::Append
        },
        WriterCommand::Flush => WriterActionView::Reply(report(err)),
        WriterCommand::Shutdown => WriterActionView::Stop(report(err)),
    }
}

/// Pending failure after an append ended with `res`: the first failure
/// is kept.
pub open spec fn after_append(err: Option<Seq<char>>, res: Result<(), Seq<char>>) -> Option<
    Seq<char>,
> {
    match err {
        Some(e) => Some(e),
        None => match res {
            Ok(()) => None,
            Err(m) => Some(m),
        },
    }
}

/// The writer's pending failure.
#[derive(Debug)]
pub struct BlockWriterState {
    pending_error: Option<String>,
}

impl View for BlockWriterState {
    type V = Option<Seq<char>>;

    closed spec fn view(&self) -> Option<Seq<char>> {
        match self.pending_error {
            Some(e) => Some(e@),
            None => None,
        }
    }
}

impl BlockWriterState {
    /// A writer with nothing failed yet.
    pub fn new() -> (r: Self)
        ensures
            r@ is None,
    {
        BlockWriterState { pending_error: None }
    }

    /// What to do with `cmd` (see [`writer_action`]).
    pub fn next_action(&self, cmd: WriterCommand) -> (r: WriterAction)
        ensures
            r@ == writer_action(self@, cmd),
    {
        let report = match &self.pending_error {
            Some(e) => Err(e.clone()),
            None => Ok(()),
        };
        match cmd {
            WriterCommand::Append => if self.pending_error.is_some() {
                WriterAction::Skip
            } else {
                WriterAction::Append
            },
            WriterCommand::Flush => WriterAction::Reply(report),
            WriterCommand::Shutdown => WriterAction::Stop(report),
        }
    }

    /// Records how an append ended (see [`after_append`]).
    pub fn record_append(&mut self, result: Result<(), String>)
        ensures
            final(self)@ == after_append(old(self)@, result_view(result)),
    {
        if self.pending_error.is_none() {
            if let Err(e) = result {
                self.pending_error = Some(e);
            }
        }
    }
}

/// One command as the writer saw it, with how its append ended where it
/// appended.
pub type WriterEvent = (WriterCommand, Result<(), Seq<char>>);

/// Pending failure after the writer handled `events` from `err`.
pub open spec fn run_writer(err: Option<Seq<char>>, events: Seq<WriterEvent>) -> Option<Seq<char>>
    decreases events.len(),
{
    if events.len() == 0 {
        err
    } else {
        let prev = run_writer(err, events.drop_last());
        let (cmd, res) = events.last();
        if writer_action(prev, cmd) is Append {
            after_append(prev, res)
        } else {
            prev
        }
    }
}

/// Once an append has failed, the failure stays: every later append is
/// skipped, and every flush and shutdown answers with that failure.
pub proof fn lemma_failure_sticks(e: Seq<char>, events: Seq<WriterEvent>)
    ensures
        run_writer(Some(e), events) == Some(e),
        forall|i: int|
            0 <= i < events.len() ==> writer_action(
                run_writer(Some(e), events.take(i)),
                (#[trigger] events[i]).0,
            ) != WriterActionView::Append,
        forall|i: int|
            0 <= i < events.len() && events[i].0 != WriterCommand::Append ==> report(
                run_writer(Some(e), #[trigger] events.take(i)),
            ) == Err::<(), Seq<char>>(e),
    decreases events.len(),
{
    if events.len() > 0 {
        lemma_failure_sticks(e, events.drop_last());
        assert forall|i: int| 0 <= i < events.len() implies run_writer(Some(e), events.take(i))
            == Some(e) by {
            lemma_failure_sticks(e, events.take(i));
        }
        assert forall|i: int|
            0 <= i < events.len() implies writer_action(
            run_writer(Some(e), events.take(i)),
            (#[trigger] events[i]).0,
        ) != WriterActionView::Append by {
            lemma_failure_sticks(e, events.take(i));
        }
    }
}

} // verus!
