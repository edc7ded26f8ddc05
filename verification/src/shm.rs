//! How an anonymous piece of shared memory is come by: first as a memory
//! file; where the system has none, as a named object that is unlinked as
//! soon as it is open. This module decides what to try next; the calls
//! into the system are the caller's.

use vstd::prelude::*;
use vstd::string::StringExecFns;
use crate::text::{append_decimal, decimal_digits};

verus! {

/// Why a call into the system failed.
#[derive(Debug, Copy, Clone, PartialEq, Eq, Structural)]
pub enum ShmErrno {
    /// The call was interrupted.
    Interrupted,
    /// The system does not have the call.
    Unsupported,
    /// An object of that name exists.
    Exists,
    /// Any other reason, by its number.
    Other(i32),
}

/// What to do next to come by the memory.
#[derive(Debug, Copy, Clone, PartialEq, Eq, Structural)]
pub enum ShmAction {
    /// Create a memory file.
    CreateMemfd,
    /// Seal the memory file against shrinking and against further seals.
    Seal(i32),
    /// Open a named object that must not exist yet, under a name that was
    /// not tried before if `fresh_name` is set, else under the last one.
    OpenNamed { fresh_name: bool },
    /// Unlink the name of the object that is open under this descriptor.
    Unlink(i32),
    /// Close this descriptor, whose name could not be unlinked.
    Close(i32, ShmErrno),
    /// The memory is there, under this descriptor.
    Return(i32),
    /// The memory cannot be had.
    Fail(ShmErrno),
}

/// How an action came out.
#[derive(Debug, Copy, Clone, PartialEq, Eq, Structural)]
pub enum ShmOutcome {
    /// A descriptor was opened.
    Opened(i32),
    /// The call succeeded and gave nothing.
    Done,
    /// The call failed.
    Failed(ShmErrno),
}

impl ShmAction {
    /// The first thing to try.
    pub fn start() -> (r: ShmAction)
        ensures
            r == ShmAction::CreateMemfd,
    {
        ShmAction::CreateMemfd
    }

    /// Nothing is left to do: the memory is there, or cannot be had.
    pub open spec fn spec_is_final(self) -> bool {
        self is Return || self is Fail
    }

    /// Nothing is left to do: the memory is there, or cannot be had.
    #[verifier::when_used_as_spec(spec_is_final)]
    pub fn is_final(self) -> (r: bool)
        ensures
            r == self.spec_is_final(),
    {
        match self {
            ShmAction::Return(_) => true,
            ShmAction::Fail(_) => true,
            _ => false,
        }
    }

    /// The descriptor that is open while this action is pending or has
    /// been reached.
    pub open spec fn held(self) -> Option<i32> {
        match self {
            ShmAction::Seal(fd) => Some(fd),
            ShmAction::Unlink(fd) => Some(fd),
            ShmAction::Close(fd, _) => Some(fd),
            ShmAction::Return(fd) => Some(fd),
            _ => None,
        }
    }

    /// What to do after this action came out as `outcome`.
    ///
    /// An interrupted call is made again. A memory file is sealed and
    /// returned, whatever comes of the sealing. Without memory files a
    /// named object is opened; where the name exists another is tried.
    /// The name of an open object is unlinked; if that fails the object
    /// is closed, and the failure reported is that of the closing if it
    /// fails too, else that of the unlinking. An outcome that does not
    /// answer the action leaves the action to be done.
    pub open spec fn spec_next(self, outcome: ShmOutcome) -> ShmAction {
        match (self, outcome) {
            (ShmAction::CreateMemfd, ShmOutcome::Opened(fd)) => ShmAction::Seal(fd),
            (ShmAction::CreateMemfd, ShmOutcome::Failed(ShmErrno::Interrupted)) => ShmAction::CreateMemfd,
            (ShmAction::CreateMemfd, ShmOutcome::Failed(ShmErrno::Unsupported)) => ShmAction::OpenNamed {
                fresh_name: true,
            },
            (ShmAction::CreateMemfd, ShmOutcome::Failed(e)) => ShmAction::Fail(e),
            (ShmAction::Seal(fd), ShmOutcome::Done) => ShmAction::Return(fd),
            (ShmAction::Seal(fd), ShmOutcome::Failed(_)) => ShmAction::Return(fd),
            (ShmAction::OpenNamed { .. }, ShmOutcome::Opened(fd)) => ShmAction::Unlink(fd),
            (ShmAction::OpenNamed { .. }, ShmOutcome::Failed(ShmErrno::Exists)) => ShmAction::OpenNamed {
                fresh_name: true,
            },
            (
                ShmAction::OpenNamed { .. },
                ShmOutcome::Failed(ShmErrno::Interrupted),
            ) => ShmAction::OpenNamed { fresh_name: false },
            (ShmAction::OpenNamed { .. }, ShmOutcome::Failed(e)) => ShmAction::Fail(e),
            (ShmAction::Unlink(fd), ShmOutcome::Done) => ShmAction::Return(fd),
            (ShmAction::Unlink(fd), ShmOutcome::Failed(e)) => ShmAction::Close(fd, e),
            (ShmAction::Close(_, cause), ShmOutcome::Done) => ShmAction::Fail(cause),
            (ShmAction::Close(_, _), ShmOutcome::Failed(e)) => ShmAction::Fail(e),
            _ => self,
        }
    }

    /// What to do after this action came out as `outcome`.
    #[verifier::when_used_as_spec(spec_next)]
    pub fn next(self, outcome: ShmOutcome) -> (r: ShmAction)
        ensures
            r == self.spec_next(outcome),
    {
        match self {
            ShmAction::CreateMemfd => match outcome {
                ShmOutcome::Opened(fd) => ShmAction::Seal(fd),
                ShmOutcome::Failed(ShmErrno::Interrupted) => ShmAction::CreateMemfd,
                ShmOutcome::Failed(ShmErrno::Unsupported) => ShmAction::OpenNamed {
                    fresh_name: true,
                },
                ShmOutcome::Failed(e) => ShmAction::Fail(e),
                ShmOutcome::Done => self,
            },
            ShmAction::Seal(fd) => match outcome {
                ShmOutcome::Done => ShmAction::Return(fd),
                ShmOutcome::Failed(_) => ShmAction::Return(fd),
                ShmOutcome::Opened(_) => self,
            },
            ShmAction::OpenNamed { .. } => match outcome {
                ShmOutcome::Opened(fd) => ShmAction::Unlink(fd),
                ShmOutcome::Failed(ShmErrno::Exists) => ShmAction::OpenNamed { fresh_name: true },
                ShmOutcome::Failed(ShmErrno::Interrupted) => ShmAction::OpenNamed {
                    fresh_name: false,
                },
                ShmOutcome::Failed(e) => ShmAction::Fail(e),
                ShmOutcome::Done => self,
            },
            ShmAction::Unlink(fd) => match outcome {
                ShmOutcome::Done => ShmAction::Return(fd),
                ShmOutcome::Failed(e) => ShmAction::Close(fd, e),
                ShmOutcome::Opened(_) => self,
            },
            ShmAction::Close(_, cause) => match outcome {
                ShmOutcome::Done => ShmAction::Fail(cause),
                ShmOutcome::Failed(e) => ShmAction::Fail(e),
                ShmOutcome::Opened(_) => self,
            },
            ShmAction::Return(_) => self,
            ShmAction::Fail(_) => self,
        }
    }
}

/// Once nothing is left to do, no outcome changes that.
pub proof fn lemma_final_action_stays(action: ShmAction, outcome: ShmOutcome)
    requires
        action.is_final(),
    ensures
        action.next(outcome) == action,
{
}

/// No descriptor is lost: one that is open stays open from action to
/// action until it is returned, and is given up only by closing it, which
/// ends in failure. And none is returned that was not opened.
pub proof fn lemma_descriptor_is_kept(action: ShmAction, outcome: ShmOutcome)
    ensures
        action.held() is Some && !(action is Close) ==> action.next(outcome).held() == action.held(),
        action is Close ==> action.next(outcome) == action || action.next(outcome) is Fail,
        action.held() is None && action.next(outcome).held() is Some ==> outcome
            == ShmOutcome::Opened(action.next(outcome).held().unwrap()),
        action.next(outcome) is Return ==> action.held() == action.next(outcome).held(),
{
}

/// The name under which the object is opened: `/wayshot-` and the given
/// number in decimal.
pub open spec fn shm_name_text(nanos: u32) -> Seq<char> {
    "/wayshot-"@ + decimal_digits(nanos as nat)
}

/// The name under which the object is opened, made from the nanoseconds
/// of the current time.
pub fn shm_name(nanos: u32) -> (name: String)
    ensures
        name@ == shm_name_text(nanos),
{
    let mut name = String::from_str("/wayshot-");
    append_decimal(&mut name, nanos as u64);
    name
}

} // verus!
