use telefork::failure::{error, ErrorKind, TeleError};

#[test]
fn error_raises_the_given_text() {
    let r: Result<u8, TeleError> = error("couldn't trace child");
    assert_eq!(r, Err(TeleError::Other("couldn't trace child")));
    assert_eq!(r.unwrap_err().message(), "couldn't trace child");
}

#[test]
fn failures_fall_into_their_families() {
    assert_eq!(TeleError::StepFailed.kind(), ErrorKind::Trace);
    assert_eq!(TeleError::MunmapFailed.kind(), ErrorKind::RemoteSyscall);
    assert_eq!(TeleError::ShortTransfer.kind(), ErrorKind::Io);
    assert_eq!(TeleError::BadCommandTag.kind(), ErrorKind::Framing);
    assert_eq!(TeleError::SyscallNotFound.kind(), ErrorKind::Capability);
    assert_eq!(TeleError::Other("x").kind(), ErrorKind::Other);
}

#[test]
fn every_failure_has_its_family() {
    let trace = [TeleError::ChildNotStopped, TeleError::StepFailed, TeleError::NoExitStatus];
    let remote = [
        TeleError::BrkFailed,
        TeleError::MmapUnaligned,
        TeleError::MmapFailed,
        TeleError::MmapMisplaced,
        TeleError::MunmapFailed,
        TeleError::MremapFailed,
        TeleError::MremapMisplaced,
        TeleError::PathTooLong,
        TeleError::OpenFailed,
        TeleError::Dup2Failed,
        TeleError::LseekFailed,
        TeleError::RegionOverflow,
    ];
    let io = [TeleError::ShortTransfer, TeleError::Truncated];
    let framing = [
        TeleError::BadCommandTag,
        TeleError::BadConnectionTag,
        TeleError::BadOptionTag,
        TeleError::BadBool,
        TeleError::BadText,
        TeleError::BadRegisters,
        TeleError::UnexpectedEvent,
    ];
    let capability = [TeleError::SyscallNotFound, TeleError::MapNotFound];
    for e in trace {
        assert_eq!(e.kind(), ErrorKind::Trace);
    }
    for e in remote {
        assert_eq!(e.kind(), ErrorKind::RemoteSyscall);
    }
    for e in io {
        assert_eq!(e.kind(), ErrorKind::Io);
    }
    for e in framing {
        assert_eq!(e.kind(), ErrorKind::Framing);
    }
    for e in capability {
        assert_eq!(e.kind(), ErrorKind::Capability);
    }
}

#[test]
fn every_failure_has_its_words() {
    let words = [
        (TeleError::ChildNotStopped, "couldn't trace child"),
        (TeleError::StepFailed, "couldn't single step child"),
        (TeleError::NoExitStatus, "somehow got other wait status instead of exit"),
        (TeleError::BrkFailed, "failed to brk"),
        (TeleError::MmapUnaligned, "mmap length must be multiple of page size"),
        (TeleError::MmapFailed, "mmap syscall exited with -1"),
        (TeleError::MmapMisplaced, "failed to mmap at correct location"),
        (TeleError::MunmapFailed, "failed to munmap"),
        (TeleError::MremapFailed, "failed to mremap"),
        (TeleError::MremapMisplaced, "didn't mremap to correct location"),
        (TeleError::PathTooLong, "long pathname not supported"),
        (TeleError::OpenFailed, "failed to open"),
        (TeleError::Dup2Failed, "failed to dup2"),
        (TeleError::LseekFailed, "failed to lseek"),
        (TeleError::ShortTransfer, "failed to move memory of other process"),
        (TeleError::RegionOverflow, "region reaches past the address space"),
        (TeleError::Truncated, "stream ended inside a command"),
        (TeleError::BadCommandTag, "unknown command"),
        (TeleError::BadConnectionTag, "unknown kind of descriptor"),
        (TeleError::BadOptionTag, "optional field is neither absent nor present"),
        (TeleError::BadBool, "flag is neither 0 nor 1"),
        (TeleError::BadText, "text is not UTF-8"),
        (TeleError::BadRegisters, "register payload is too short"),
        (TeleError::UnexpectedEvent, "answer out of turn"),
        (TeleError::SyscallNotFound, "couldn't find syscall"),
        (TeleError::MapNotFound, "no map of that name"),
        (TeleError::Other("failed to attach to process"), "failed to attach to process"),
    ];
    for (failure, text) in words {
        assert_eq!(failure.message(), text);
    }
}
