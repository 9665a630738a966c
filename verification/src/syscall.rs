//! System calls that the victim makes on the tracer's behalf.
//!
//! The tracer points the victim's instruction pointer at a system call
//! instruction, puts the number of the call and its arguments in the
//! registers that the x86-64 Linux convention assigns, lets the victim run one
//! instruction, and reads the result from the accumulator. This module says
//! which registers each call takes and what each result means.

use crate::failure::TeleError;
use crate::registers::Registers;
use crate::PAGE_SIZE;
use vstd::prelude::*;

verus! {

/// The number of `open`.
pub const SYS_OPEN: u64 = 2;

/// The number of `lseek`.
pub const SYS_LSEEK: u64 = 8;

/// The number of `mmap`.
pub const SYS_MMAP: u64 = 9;

/// The number of `munmap`.
pub const SYS_MUNMAP: u64 = 11;

/// The number of `brk`.
pub const SYS_BRK: u64 = 12;

/// The number of `mremap`.
pub const SYS_MREMAP: u64 = 25;

/// The number of `dup2`.
pub const SYS_DUP2: u64 = 33;

/// Pages may be read.
pub const PROT_READ: u64 = 1;

/// Pages may be written.
pub const PROT_WRITE: u64 = 2;

/// Pages may be executed.
pub const PROT_EXEC: u64 = 4;

/// Pages may be read, written and executed.
pub const PROT_ALL: u64 = 7;

/// Changes to the map are private to the process.
pub const MAP_PRIVATE: u64 = 0x02;

/// The map goes exactly where it is asked to go.
pub const MAP_FIXED: u64 = 0x10;

/// The map is backed by no file.
pub const MAP_ANONYMOUS: u64 = 0x20;

/// The region may move when it is remapped.
pub const MREMAP_MAYMOVE: u64 = 1;

/// The region moves to the address given.
pub const MREMAP_FIXED: u64 = 2;

/// Open for reading only.
pub const O_RDONLY: u64 = 0;

/// Seek from the start of the file.
pub const SEEK_SET: u64 = 0;

/// The first byte of the system call instruction.
pub const SYSCALL_BYTE_0: u8 = 0x0f;

/// The second byte of the system call instruction.
pub const SYSCALL_BYTE_1: u8 = 0x05;

/// What a call returns in place of -1.
pub const MINUS_ONE: u64 = 0xffff_ffff_ffff_ffff;

/// The least accumulator that is a negative number when read as signed.
pub const SIGN_BIT: u64 = 0x8000_0000_0000_0000;

/// Whether the accumulator, read as a signed number, is negative: the
/// kernel's way to report that a call failed.
pub open spec fn is_negative(rax: u64) -> bool {
    rax >= SIGN_BIT
}

/// An address in the victim that holds a system call instruction.
#[derive(Debug, Clone, Copy, PartialEq, Eq, Structural)]
pub struct SyscallLoc(pub u64);

/// Whether the two bytes at `i` are a system call instruction.
pub open spec fn syscall_at(page: Seq<u8>, i: int) -> bool {
    &&& 0 <= i
    &&& i + 1 < page.len()
    &&& page[i] == SYSCALL_BYTE_0
    &&& page[i + 1] == SYSCALL_BYTE_1
}

/// The offset of the first system call instruction at or after `i`; the
/// length of the page where there is none.
pub open spec fn first_syscall_from(page: Seq<u8>, i: int) -> int
    decreases page.len() - i,
{
    if i >= page.len() {
        page.len() as int
    } else if syscall_at(page, i) {
        i
    } else {
        first_syscall_from(page, i + 1)
    }
}

/// The offset of the first system call instruction in a page; the length of
/// the page where there is none.
pub open spec fn first_syscall(page: Seq<u8>) -> int {
    first_syscall_from(page, 0)
}

/// What [`first_syscall_from`] finds: an instruction with none between `i`
/// and it, or the end of a page that has none from `i` on.
pub proof fn lemma_first_syscall_from(page: Seq<u8>, i: int)
    requires
        0 <= i,
    ensures
        i <= first_syscall_from(page, i) || first_syscall_from(page, i) == page.len(),
        first_syscall_from(page, i) <= page.len(),
        first_syscall_from(page, i) < page.len() ==> syscall_at(
            page,
            first_syscall_from(page, i),
        ),
        forall|j: int| i <= j < first_syscall_from(page, i) ==> !syscall_at(page, j),
        first_syscall_from(page, i) == page.len() ==> forall|j: int| i <= j ==> !syscall_at(page, j),
    decreases page.len() - i,
{
    if i < page.len() && !syscall_at(page, i) {
        lemma_first_syscall_from(page, i + 1);
    }
}

/// Looks for the first system call instruction in a page read from the
/// victim, and gives its offset.
pub fn find_syscall(page: &[u8]) -> (r: Option<usize>)
    ensures
        match r {
            Some(i) => syscall_at(page@, i as int) && i == first_syscall(page@) && forall|j: int|
                0 <= j < i ==> !syscall_at(page@, j),
            None => first_syscall(page@) == page@.len() && forall|j: int| !syscall_at(page@, j),
        },
{
    proof {
        lemma_first_syscall_from(page@, 0);
    }
    if page.len() < 2 {
        return None;
    }
    let last = page.len() - 1;
    let mut i: usize = 0;
    while i < last
        invariant
            i <= last,
            last + 1 == page@.len(),
            forall|j: int| 0 <= j < i ==> !syscall_at(page@, j),
            first_syscall(page@) <= page@.len(),
            first_syscall(page@) < page@.len() ==> syscall_at(page@, first_syscall(page@)),
            forall|j: int| 0 <= j < first_syscall(page@) ==> !syscall_at(page@, j),
        decreases last - i,
    {
        if page[i] == SYSCALL_BYTE_0 && page[i + 1] == SYSCALL_BYTE_1 {
            assert(syscall_at(page@, i as int));
            assert(first_syscall(page@) < i ==> syscall_at(page@, first_syscall(page@)));
            return Some(i);
        }
        i += 1;
    }
    None
}

/// The offset of the first system call instruction in a page, or the failure
/// of a page that holds none.
pub fn try_to_find_syscall(page: &[u8]) -> (r: Result<usize, TeleError>)
    ensures
        match r {
            Ok(i) => syscall_at(page@, i as int) && i == first_syscall(page@) && forall|j: int|
                0 <= j < i ==> !syscall_at(page@, j),
            Err(e) => e == TeleError::SyscallNotFound && first_syscall(page@) == page@.len()
                && forall|j: int| !syscall_at(page@, j),
        },
{
    match find_syscall(page) {
        Some(i) => Ok(i),
        None => Err(TeleError::SyscallNotFound),
    }
}

impl SyscallLoc {
    /// The location of an instruction that sits `offset` bytes into the
    /// region that starts at `base`; none where that is past the last
    /// address.
    pub fn at(base: u64, offset: usize) -> (r: Option<SyscallLoc>)
        ensures
            match r {
                Some(loc) => loc.0 == base + offset,
                None => base + offset > u64::MAX,
            },
    {
        if offset as u64 > u64::MAX - base {
            None
        } else {
            Some(SyscallLoc(base + offset as u64))
        }
    }
}

/// A system call for the victim to make.
#[derive(Debug, Clone, Copy, PartialEq, Eq, Structural)]
pub enum RemoteCall {
    /// Set the program break; with address 0, only ask where it is.
    Brk { addr: u64 },
    /// Map fresh private memory, at the address `at` if one is given.
    MmapAnon { at: Option<u64>, length: u64, prot: u64 },
    /// Unmap a region.
    Munmap { addr: u64, length: u64 },
    /// Move a region to `new_addr`, keeping its length.
    Mremap { addr: u64, length: u64, new_addr: u64 },
    /// Open the file whose path lies at `path_addr` in the victim.
    Open { path_addr: u64, flags: u64 },
    /// Make `newfd` a copy of `oldfd`.
    Dup2 { oldfd: u32, newfd: u32 },
    /// Move the offset of `fd`, counted from the start of the file.
    Lseek { fd: u32, offset: u64 },
}

/// Whether two bundles differ at most in the registers that carry a system
/// call: the instruction pointer, the accumulator and the six arguments.
pub open spec fn same_but_call_registers(a: Registers, b: Registers) -> bool {
    b == (Registers {
        rip: b.rip,
        rax: b.rax,
        rdi: b.rdi,
        rsi: b.rsi,
        rdx: b.rdx,
        r10: b.r10,
        r8: b.r8,
        r9: b.r9,
        ..a
    })
}

impl RemoteCall {
    /// The number of the call.
    pub open spec fn spec_number(self) -> u64 {
        match self {
            RemoteCall::Brk { .. } => SYS_BRK,
            RemoteCall::MmapAnon { .. } => SYS_MMAP,
            RemoteCall::Munmap { .. } => SYS_MUNMAP,
            RemoteCall::Mremap { .. } => SYS_MREMAP,
            RemoteCall::Open { .. } => SYS_OPEN,
            RemoteCall::Dup2 { .. } => SYS_DUP2,
            RemoteCall::Lseek { .. } => SYS_LSEEK,
        }
    }

    /// The registers with which the victim makes the call at `loc`: the
    /// snapshot `regs`, changed only where the call needs it.
    pub open spec fn spec_registers(self, regs: Registers, loc: SyscallLoc) -> Registers {
        match self {
            RemoteCall::Brk { addr } => Registers { rip: loc.0, rax: SYS_BRK, rdi: addr, ..regs },
            RemoteCall::MmapAnon { at, length, prot } => Registers {
                rip: loc.0,
                rax: SYS_MMAP,
                rdi: match at {
                    Some(a) => a,
                    None => 0,
                },
                rsi: length,
                rdx: prot,
                r10: match at {
                    Some(_) => 0x32,
                    None => 0x22,
                },
                r8: MINUS_ONE,
                r9: 0,
                ..regs
            },
            RemoteCall::Munmap { addr, length } => Registers {
                rip: loc.0,
                rax: SYS_MUNMAP,
                rdi: addr,
                rsi: length,
                ..regs
            },
            RemoteCall::Mremap { addr, length, new_addr } => Registers {
                rip: loc.0,
                rax: SYS_MREMAP,
                rdi: addr,
                rsi: length,
                rdx: length,
                r10: 3,
                r8: new_addr,
                ..regs
            },
            RemoteCall::Open { path_addr, flags } => Registers {
                rip: loc.0,
                rax: SYS_OPEN,
                rdi: path_addr,
                rsi: flags,
                rdx: 0,
                ..regs
            },
            RemoteCall::Dup2 { oldfd, newfd } => Registers {
                rip: loc.0,
                rax: SYS_DUP2,
                rdi: oldfd as u64,
                rsi: newfd as u64,
                ..regs
            },
            RemoteCall::Lseek { fd, offset } => Registers {
                rip: loc.0,
                rax: SYS_LSEEK,
                rdi: fd as u64,
                rsi: offset,
                rdx: SEEK_SET,
                ..regs
            },
        }
    }

    /// What the accumulator means after the call: the value that the call
    /// yields, or the failure of a call that did not do what was asked.
    ///
    /// A negative accumulator, read as a signed number, is the kernel's way
    /// to report an error, and fails every call. Beyond that: a break is
    /// reported as it is. An anonymous map yields its address; it fails
    /// where an address other than 0 was asked for and another came back. An
    /// unmap must return 0. A remap must return the new address. An open
    /// yields the descriptor. A duplication must return the new descriptor,
    /// and yields 0. A seek must return the offset asked for.
    pub open spec fn spec_outcome(self, rax: u64) -> Result<u64, TeleError> {
        match self {
            RemoteCall::Brk { .. } => {
                if is_negative(rax) {
                    Err(TeleError::BrkFailed)
                } else {
                    Ok(rax)
                }
            },
            RemoteCall::MmapAnon { at, .. } => {
                if is_negative(rax) {
                    Err(TeleError::MmapFailed)
                } else if at matches Some(a) && a != 0 && rax != a {
                    Err(TeleError::MmapMisplaced)
                } else {
                    Ok(rax)
                }
            },
            RemoteCall::Munmap { .. } => {
                if rax != 0 {
                    Err(TeleError::MunmapFailed)
                } else {
                    Ok(0)
                }
            },
            RemoteCall::Mremap { new_addr, .. } => {
                if is_negative(rax) {
                    Err(TeleError::MremapFailed)
                } else if rax != new_addr {
                    Err(TeleError::MremapMisplaced)
                } else {
                    Ok(rax)
                }
            },
            RemoteCall::Open { .. } => {
                if is_negative(rax) {
                    Err(TeleError::OpenFailed)
                } else {
                    Ok((rax % 0x1_0000_0000) as u64)
                }
            },
            RemoteCall::Dup2 { newfd, .. } => {
                if rax != newfd as u64 {
                    Err(TeleError::Dup2Failed)
                } else {
                    Ok(0)
                }
            },
            RemoteCall::Lseek { offset, .. } => {
                if is_negative(rax) || rax != offset {
                    Err(TeleError::LseekFailed)
                } else {
                    Ok(rax)
                }
            },
        }
    }

    /// Whether the call may be made at all: the length of an anonymous map
    /// must be a whole number of pages.
    pub open spec fn spec_valid(self) -> bool {
        self matches RemoteCall::MmapAnon { length, .. } ==> length % PAGE_SIZE == 0
    }

    /// The number of the call.
    pub fn number(&self) -> (n: u64)
        ensures
            n == self.spec_number(),
    {
        match self {
            RemoteCall::Brk { .. } => SYS_BRK,
            RemoteCall::MmapAnon { .. } => SYS_MMAP,
            RemoteCall::Munmap { .. } => SYS_MUNMAP,
            RemoteCall::Mremap { .. } => SYS_MREMAP,
            RemoteCall::Open { .. } => SYS_OPEN,
            RemoteCall::Dup2 { .. } => SYS_DUP2,
            RemoteCall::Lseek { .. } => SYS_LSEEK,
        }
    }

    /// Refuses a call that must not be made: an anonymous map whose length is
    /// not a whole number of pages.
    pub fn validate(&self) -> (r: Result<(), TeleError>)
        ensures
            self.spec_valid() ==> r is Ok,
            !self.spec_valid() ==> r == Err::<(), TeleError>(TeleError::MmapUnaligned),
    {
        match self {
            RemoteCall::MmapAnon { length, .. } => {
                if *length % PAGE_SIZE != 0 {
                    Err(TeleError::MmapUnaligned)
                } else {
                    Ok(())
                }
            },
            _ => Ok(()),
        }
    }

    /// Loads the call into a snapshot of the victim's registers. The
    /// instruction pointer goes to `loc`, the accumulator holds the number of
    /// the call, and no register changes but those that carry a call.
    pub fn registers(&self, regs: &Registers, loc: SyscallLoc) -> (out: Registers)
        ensures
            out == self.spec_registers(*regs, loc),
            out.rip == loc.0,
            out.rax == self.spec_number(),
            same_but_call_registers(*regs, out),
    {
        let mut out = *regs;
        out.rip = loc.0;
        out.rax = self.number();
        match self {
            RemoteCall::Brk { addr } => {
                out.rdi = *addr;
            },
            RemoteCall::MmapAnon { at, length, prot } => {
                match at {
                    Some(a) => {
                        out.rdi = *a;
                        out.r10 = 0x32;
                    },
                    None => {
                        out.rdi = 0;
                        out.r10 = 0x22;
                    },
                }
                out.rsi = *length;
                out.rdx = *prot;
                out.r8 = MINUS_ONE;
                out.r9 = 0;
            },
            RemoteCall::Munmap { addr, length } => {
                out.rdi = *addr;
                out.rsi = *length;
            },
            RemoteCall::Mremap { addr, length, new_addr } => {
                out.rdi = *addr;
                out.rsi = *length;
                out.rdx = *length;
                out.r10 = 3;
                out.r8 = *new_addr;
            },
            RemoteCall::Open { path_addr, flags } => {
                out.rdi = *path_addr;
                out.rsi = *flags;
                out.rdx = 0;
            },
            RemoteCall::Dup2 { oldfd, newfd } => {
                out.rdi = *oldfd as u64;
                out.rsi = *newfd as u64;
            },
            RemoteCall::Lseek { fd, offset } => {
                out.rdi = *fd as u64;
                out.rsi = *offset;
                out.rdx = SEEK_SET;
            },
        }
        out
    }

    /// Judges the accumulator that the victim was left with after the call.
    pub fn outcome(&self, rax: u64) -> (r: Result<u64, TeleError>)
        ensures
            r == self.spec_outcome(rax),
    {
        match self {
            RemoteCall::Brk { .. } => {
                if rax >= SIGN_BIT {
                    Err(TeleError::BrkFailed)
                } else {
                    Ok(rax)
                }
            },
            RemoteCall::MmapAnon { at, .. } => {
                if rax >= SIGN_BIT {
                    return Err(TeleError::MmapFailed);
                }
                match at {
                    Some(a) => {
                        if *a != 0 && rax != *a {
                            return Err(TeleError::MmapMisplaced);
                        }
                    },
                    None => {},
                }
                Ok(rax)
            },
            RemoteCall::Munmap { .. } => {
                if rax != 0 {
                    Err(TeleError::MunmapFailed)
                } else {
                    Ok(0)
                }
            },
            RemoteCall::Mremap { new_addr, .. } => {
                if rax >= SIGN_BIT {
                    Err(TeleError::MremapFailed)
                } else if rax != *new_addr {
                    Err(TeleError::MremapMisplaced)
                } else {
                    Ok(rax)
                }
            },
            RemoteCall::Open { .. } => {
                if rax >= SIGN_BIT {
                    Err(TeleError::OpenFailed)
                } else {
                    Ok(rax % 0x1_0000_0000)
                }
            },
            RemoteCall::Dup2 { newfd, .. } => {
                if rax != *newfd as u64 {
                    Err(TeleError::Dup2Failed)
                } else {
                    Ok(0)
                }
            },
            RemoteCall::Lseek { offset, .. } => {
                if rax >= SIGN_BIT || rax != *offset {
                    Err(TeleError::LseekFailed)
                } else {
                    Ok(rax)
                }
            },
        }
    }
}

/// The accumulator with which a restored process wakes: the number handed
/// over, as the 64-bit two's complement that the waking code reads back as a
/// 32-bit result.
pub open spec fn spec_wake_value(pass_to_child: i32) -> u64 {
    if pass_to_child >= 0 {
        pass_to_child as u64
    } else {
        (0x1_0000_0000_0000_0000 + pass_to_child) as u64
    }
}

/// Computes the accumulator with which a restored process wakes.
pub fn wake_value(pass_to_child: i32) -> (rax: u64)
    ensures
        rax == spec_wake_value(pass_to_child),
{
    if pass_to_child >= 0 {
        pass_to_child as u64
    } else {
        let below: u64 = (-(pass_to_child as i64)) as u64;
        MINUS_ONE - below + 1
    }
}

} // verus!
