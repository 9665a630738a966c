//! The failures of checkpoint and restore, and the families they fall into.

use vstd::prelude::*;

verus! {

/// The family of a failure.
#[derive(Debug, Clone, Copy, PartialEq, Eq, Structural)]
pub enum ErrorKind {
    /// Forking, attaching, stepping or waiting went other than expected.
    Trace,
    /// A system call made by the victim returned what it should not.
    RemoteSyscall,
    /// The channel or a cross-process memory transfer fell short.
    Io,
    /// A command on the channel is not a command.
    Framing,
    /// Something the restore depends on is not there.
    Capability,
    /// A failure that the embedding program raised in its own words.
    Other,
}

/// A failure that ends the operation under way. Nothing is rolled back.
#[derive(Debug, Clone, Copy, PartialEq, Eq)]
pub enum TeleError {
    /// The forked child did not stop with the stop signal.
    ChildNotStopped,
    /// A single step did not end in a trap.
    StepFailed,
    /// The awaited child changed state without exiting.
    NoExitStatus,
    /// The victim's `brk` returned an error.
    BrkFailed,
    /// The length of an anonymous map is not a whole number of pages.
    MmapUnaligned,
    /// The victim's `mmap` returned an error.
    MmapFailed,
    /// The victim's `mmap` put the region elsewhere than asked.
    MmapMisplaced,
    /// The victim's `munmap` did not return 0.
    MunmapFailed,
    /// The victim's `mremap` returned an error.
    MremapFailed,
    /// The victim's `mremap` put the region elsewhere than asked.
    MremapMisplaced,
    /// A path does not fit the page set aside for it.
    PathTooLong,
    /// The victim's `open` returned an error.
    OpenFailed,
    /// The victim's `dup2` did not return the descriptor asked for.
    Dup2Failed,
    /// The victim's `lseek` did not return the offset asked for.
    LseekFailed,
    /// A memory transfer moved fewer bytes than asked.
    ShortTransfer,
    /// A region of memory reaches past the end of the address space.
    RegionOverflow,
    /// The channel ended inside a command.
    Truncated,
    /// A command starts with a tag that names no command.
    BadCommandTag,
    /// A descriptor record starts with a tag that names no kind of descriptor.
    BadConnectionTag,
    /// An optional field starts with a byte other than 0 or 1.
    BadOptionTag,
    /// A flag is a byte other than 0 or 1.
    BadBool,
    /// A text field is not UTF-8.
    BadText,
    /// The register payload is shorter than a register bundle.
    BadRegisters,
    /// The acceptor was told what it had not asked for.
    UnexpectedEvent,
    /// The page searched holds no system call instruction.
    SyscallNotFound,
    /// The victim has no map of the name needed.
    MapNotFound,
    /// A failure in the words of the embedding program.
    Other(&'static str),
}

impl TeleError {
    /// The family that each failure belongs to.
    pub open spec fn spec_kind(self) -> ErrorKind {
        match self {
            TeleError::ChildNotStopped | TeleError::StepFailed | TeleError::NoExitStatus =>
                ErrorKind::Trace,
            TeleError::BrkFailed
            | TeleError::MmapUnaligned
            | TeleError::MmapFailed
            | TeleError::MmapMisplaced
            | TeleError::MunmapFailed
            | TeleError::MremapFailed
            | TeleError::MremapMisplaced
            | TeleError::PathTooLong
            | TeleError::OpenFailed
            | TeleError::Dup2Failed
            | TeleError::LseekFailed
            | TeleError::RegionOverflow => ErrorKind::RemoteSyscall,
            TeleError::ShortTransfer | TeleError::Truncated => ErrorKind::Io,
            TeleError::BadCommandTag
            | TeleError::BadConnectionTag
            | TeleError::BadOptionTag
            | TeleError::BadBool
            | TeleError::BadText
            | TeleError::BadRegisters
            | TeleError::UnexpectedEvent => ErrorKind::Framing,
            TeleError::SyscallNotFound | TeleError::MapNotFound => ErrorKind::Capability,
            TeleError::Other(_) => ErrorKind::Other,
        }
    }

    /// The family of this failure.
    pub fn kind(&self) -> (kind: ErrorKind)
        ensures
            kind == self.spec_kind(),
    {
        match self {
            TeleError::ChildNotStopped | TeleError::StepFailed | TeleError::NoExitStatus =>
                ErrorKind::Trace,
            TeleError::BrkFailed
            | TeleError::MmapUnaligned
            | TeleError::MmapFailed
            | TeleError::MmapMisplaced
            | TeleError::MunmapFailed
            | TeleError::MremapFailed
            | TeleError::MremapMisplaced
            | TeleError::PathTooLong
            | TeleError::OpenFailed
            | TeleError::Dup2Failed
            | TeleError::LseekFailed
            | TeleError::RegionOverflow => ErrorKind::RemoteSyscall,
            TeleError::ShortTransfer | TeleError::Truncated => ErrorKind::Io,
            TeleError::BadCommandTag
            | TeleError::BadConnectionTag
            | TeleError::BadOptionTag
            | TeleError::BadBool
            | TeleError::BadText
            | TeleError::BadRegisters
            | TeleError::UnexpectedEvent => ErrorKind::Framing,
            TeleError::SyscallNotFound | TeleError::MapNotFound => ErrorKind::Capability,
            TeleError::Other(_) => ErrorKind::Other,
        }
    }

    /// The words for each failure.
    pub open spec fn spec_message(self) -> Seq<char> {
        match self {
            TeleError::ChildNotStopped => "couldn't trace child"@,
            TeleError::StepFailed => "couldn't single step child"@,
            TeleError::NoExitStatus => "somehow got other wait status instead of exit"@,
            TeleError::BrkFailed => "failed to brk"@,
            TeleError::MmapUnaligned => "mmap length must be multiple of page size"@,
            TeleError::MmapFailed => "mmap syscall exited with -1"@,
            TeleError::MmapMisplaced => "failed to mmap at correct location"@,
            TeleError::MunmapFailed => "failed to munmap"@,
            TeleError::MremapFailed => "failed to mremap"@,
            TeleError::MremapMisplaced => "didn't mremap to correct location"@,
            TeleError::PathTooLong => "long pathname not supported"@,
            TeleError::OpenFailed => "failed to open"@,
            TeleError::Dup2Failed => "failed to dup2"@,
            TeleError::LseekFailed => "failed to lseek"@,
            TeleError::ShortTransfer => "failed to move memory of other process"@,
            TeleError::RegionOverflow => "region reaches past the address space"@,
            TeleError::Truncated => "stream ended inside a command"@,
            TeleError::BadCommandTag => "unknown command"@,
            TeleError::BadConnectionTag => "unknown kind of descriptor"@,
            TeleError::BadOptionTag => "optional field is neither absent nor present"@,
            TeleError::BadBool => "flag is neither 0 nor 1"@,
            TeleError::BadText => "text is not UTF-8"@,
            TeleError::BadRegisters => "register payload is too short"@,
            TeleError::UnexpectedEvent => "answer out of turn"@,
            TeleError::SyscallNotFound => "couldn't find syscall"@,
            TeleError::MapNotFound => "no map of that name"@,
            TeleError::Other(s) => s@,
        }
    }

    /// The failure in words. A failure raised through [`error`] reads as it
    /// was given.
    pub fn message(&self) -> (text: &'static str)
        ensures
            text@ == self.spec_message(),
            self matches TeleError::Other(s) ==> text == s,
    {
        match self {
            TeleError::ChildNotStopped => "couldn't trace child",
            TeleError::StepFailed => "couldn't single step child",
            TeleError::NoExitStatus => "somehow got other wait status instead of exit",
            TeleError::BrkFailed => "failed to brk",
            TeleError::MmapUnaligned => "mmap length must be multiple of page size",
            TeleError::MmapFailed => "mmap syscall exited with -1",
            TeleError::MmapMisplaced => "failed to mmap at correct location",
            TeleError::MunmapFailed => "failed to munmap",
            TeleError::MremapFailed => "failed to mremap",
            TeleError::MremapMisplaced => "didn't mremap to correct location",
            TeleError::PathTooLong => "long pathname not supported",
            TeleError::OpenFailed => "failed to open",
            TeleError::Dup2Failed => "failed to dup2",
            TeleError::LseekFailed => "failed to lseek",
            TeleError::ShortTransfer => "failed to move memory of other process",
            TeleError::RegionOverflow => "region reaches past the address space",
            TeleError::Truncated => "stream ended inside a command",
            TeleError::BadCommandTag => "unknown command",
            TeleError::BadConnectionTag => "unknown kind of descriptor",
            TeleError::BadOptionTag => "optional field is neither absent nor present",
            TeleError::BadBool => "flag is neither 0 nor 1",
            TeleError::BadText => "text is not UTF-8",
            TeleError::BadRegisters => "register payload is too short",
            TeleError::UnexpectedEvent => "answer out of turn",
            TeleError::SyscallNotFound => "couldn't find syscall",
            TeleError::MapNotFound => "no map of that name",
            TeleError::Other(s) => s,
        }
    }
}

/// Raises a failure in the caller's own words.
pub fn error<T>(s: &'static str) -> (r: Result<T, TeleError>)
    ensures
        r matches Err(e) && e == TeleError::Other(s),
{
    Err(TeleError::Other(s))
}

} // verus!
