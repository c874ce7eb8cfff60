use vstd::prelude::*;

verus! {

/// A change that the file watcher reports.
#[derive(Debug, Clone, Copy, PartialEq, Eq, Structural)]
pub enum ModifyType {
    /// Bytes were appended.
    Data,
    /// The file was renamed or replaced.
    Rotate,
}

/// What the tailing loop does next.
#[derive(Debug, Clone, Copy, PartialEq, Eq, Structural)]
pub enum TailAction {
    /// Hand the line just read to the pipeline.
    Process,
    /// Block until the watcher reports a change.
    Wait,
    /// Read again from the current handle.
    Read,
    /// Wait for the path to exist, open it anew and read from its start.
    Reopen,
    /// Sleep for the backoff, then read again.
    Backoff,
}

/// The next step after a read: `Some(n)` bytes were read, or the read failed.
pub fn after_read(read: Option<usize>) -> (r: TailAction)
    ensures
        r == (match read {
            Some(n) => if n == 0 { TailAction::Wait } else { TailAction::Process },
            None => TailAction::Backoff,
        }),
{
    match read {
        Some(n) => if n == 0 { TailAction::Wait } else { TailAction::Process },
        None => TailAction::Backoff,
    }
}

/// The next step after waiting: the watcher's report, or `None` where it
/// has gone away.
pub fn after_notice(notice: Option<ModifyType>) -> (r: TailAction)
    ensures
        r == (match notice {
            Some(ModifyType::Data) => TailAction::Read,
            Some(ModifyType::Rotate) => TailAction::Reopen,
            None => TailAction::Backoff,
        }),
{
    match notice {
        Some(ModifyType::Data) => TailAction::Read,
        Some(ModifyType::Rotate) => TailAction::Reopen,
        None => TailAction::Backoff,
    }
}

} // verus!
