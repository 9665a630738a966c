use telefork::failure::TeleError;
use telefork::registers::Registers;
use telefork::syscall::{
    find_syscall, try_to_find_syscall, wake_value, RemoteCall, SyscallLoc, MAP_ANONYMOUS,
    MAP_FIXED, MAP_PRIVATE, MINUS_ONE, MREMAP_FIXED, MREMAP_MAYMOVE, O_RDONLY, PROT_ALL,
    PROT_EXEC, PROT_READ, PROT_WRITE, SEEK_SET, SYS_BRK, SYS_DUP2, SYS_LSEEK, SYS_MMAP,
    SYS_MREMAP, SYS_MUNMAP, SYS_OPEN,
};

fn snapshot() -> Registers {
    Registers {
        r15: 101,
        r14: 102,
        r13: 103,
        r12: 104,
        rbp: 105,
        rbx: 106,
        r11: 107,
        r10: 108,
        r9: 109,
        r8: 110,
        rax: 111,
        rcx: 112,
        rdx: 113,
        rsi: 114,
        rdi: 115,
        orig_rax: 116,
        rip: 117,
        cs: 118,
        eflags: 119,
        rsp: 120,
        ss: 121,
        fs_base: 122,
        gs_base: 123,
        ds: 124,
        es: 125,
        fs: 126,
        gs: 127,
    }
}

const LOC: SyscallLoc = SyscallLoc(0x7ffd_1000_0a3c);

#[test]
fn numbers_are_those_of_the_kernel() {
    assert_eq!(SYS_OPEN, libc::SYS_open as u64);
    assert_eq!(SYS_LSEEK, libc::SYS_lseek as u64);
    assert_eq!(SYS_MMAP, libc::SYS_mmap as u64);
    assert_eq!(SYS_MUNMAP, libc::SYS_munmap as u64);
    assert_eq!(SYS_BRK, libc::SYS_brk as u64);
    assert_eq!(SYS_MREMAP, libc::SYS_mremap as u64);
    assert_eq!(SYS_DUP2, libc::SYS_dup2 as u64);
    assert_eq!((SYS_OPEN, SYS_LSEEK, SYS_MMAP, SYS_MUNMAP), (2, 8, 9, 11));
    assert_eq!((SYS_BRK, SYS_MREMAP, SYS_DUP2), (12, 25, 33));
}

#[test]
fn flags_are_those_of_the_kernel() {
    assert_eq!(PROT_READ, libc::PROT_READ as u64);
    assert_eq!(PROT_WRITE, libc::PROT_WRITE as u64);
    assert_eq!(PROT_EXEC, libc::PROT_EXEC as u64);
    assert_eq!(PROT_ALL, (libc::PROT_READ | libc::PROT_WRITE | libc::PROT_EXEC) as u64);
    assert_eq!(MAP_PRIVATE, libc::MAP_PRIVATE as u64);
    assert_eq!(MAP_FIXED, libc::MAP_FIXED as u64);
    assert_eq!(MAP_ANONYMOUS, libc::MAP_ANONYMOUS as u64);
    assert_eq!(MREMAP_MAYMOVE, libc::MREMAP_MAYMOVE as u64);
    assert_eq!(MREMAP_FIXED, libc::MREMAP_FIXED as u64);
    assert_eq!(O_RDONLY, libc::O_RDONLY as u64);
    assert_eq!(SEEK_SET, libc::SEEK_SET as u64);
    assert_eq!(MINUS_ONE, (-1i64) as u64);
}

#[test]
fn call_numbers_by_call() {
    assert_eq!(RemoteCall::Brk { addr: 0 }.number(), 12);
    assert_eq!(RemoteCall::MmapAnon { at: None, length: 4096, prot: 7 }.number(), 9);
    assert_eq!(RemoteCall::Munmap { addr: 0, length: 0 }.number(), 11);
    assert_eq!(RemoteCall::Mremap { addr: 0, length: 0, new_addr: 0 }.number(), 25);
    assert_eq!(RemoteCall::Open { path_addr: 0, flags: 0 }.number(), 2);
    assert_eq!(RemoteCall::Dup2 { oldfd: 0, newfd: 0 }.number(), 33);
    assert_eq!(RemoteCall::Lseek { fd: 0, offset: 0 }.number(), 8);
}

#[test]
fn brk_loads_three_registers() {
    let regs = RemoteCall::Brk { addr: 0x5555_0000 }.registers(&snapshot(), LOC);
    assert_eq!(regs, Registers { rip: LOC.0, rax: 12, rdi: 0x5555_0000, ..snapshot() });
}

#[test]
fn fixed_mmap_loads_all_arguments() {
    let call = RemoteCall::MmapAnon { at: Some(0x7f00_0000_0000), length: 8192, prot: 7 };
    let regs = call.registers(&snapshot(), LOC);
    let flags: u64 = (libc::MAP_PRIVATE | libc::MAP_ANONYMOUS | libc::MAP_FIXED) as u64;
    assert_eq!(flags, 0x32);
    assert_eq!(
        regs,
        Registers {
            rip: LOC.0,
            rax: 9,
            rdi: 0x7f00_0000_0000,
            rsi: 8192,
            rdx: 7,
            r10: flags,
            r8: u64::MAX,
            r9: 0,
            ..snapshot()
        }
    );
}

#[test]
fn mmap_anywhere_asks_for_address_zero_without_the_fixed_flag() {
    let call = RemoteCall::MmapAnon { at: None, length: 4096, prot: 7 };
    let regs = call.registers(&snapshot(), LOC);
    let flags: u64 = (libc::MAP_PRIVATE | libc::MAP_ANONYMOUS) as u64;
    assert_eq!(flags, 0x22);
    assert_eq!(
        regs,
        Registers {
            rip: LOC.0,
            rax: 9,
            rdi: 0,
            rsi: 4096,
            rdx: 7,
            r10: flags,
            r8: u64::MAX,
            r9: 0,
            ..snapshot()
        }
    );
}

#[test]
fn munmap_loads_address_and_length() {
    let regs = RemoteCall::Munmap { addr: 0x1000, length: 0x3000 }.registers(&snapshot(), LOC);
    assert_eq!(regs, Registers { rip: LOC.0, rax: 11, rdi: 0x1000, rsi: 0x3000, ..snapshot() });
}

#[test]
fn mremap_keeps_the_length_and_may_move_to_a_fixed_place() {
    let call = RemoteCall::Mremap { addr: 0x7ffd_0000, length: 0x2000, new_addr: 0x7ffe_0000 };
    let regs = call.registers(&snapshot(), LOC);
    assert_eq!(
        regs,
        Registers {
            rip: LOC.0,
            rax: 25,
            rdi: 0x7ffd_0000,
            rsi: 0x2000,
            rdx: 0x2000,
            r10: (libc::MREMAP_MAYMOVE | libc::MREMAP_FIXED) as u64,
            r8: 0x7ffe_0000,
            ..snapshot()
        }
    );
    assert_eq!(regs.r10, 3);
}

#[test]
fn open_loads_path_flags_and_mode_zero() {
    let regs = RemoteCall::Open { path_addr: 0x7f12_3000, flags: 0 }.registers(&snapshot(), LOC);
    assert_eq!(
        regs,
        Registers { rip: LOC.0, rax: 2, rdi: 0x7f12_3000, rsi: 0, rdx: 0, ..snapshot() }
    );
}

#[test]
fn dup2_loads_both_descriptors() {
    let regs = RemoteCall::Dup2 { oldfd: 7, newfd: 3 }.registers(&snapshot(), LOC);
    assert_eq!(regs, Registers { rip: LOC.0, rax: 33, rdi: 7, rsi: 3, ..snapshot() });
}

#[test]
fn lseek_counts_from_the_start() {
    let regs = RemoteCall::Lseek { fd: 3, offset: 1234 }.registers(&snapshot(), LOC);
    assert_eq!(regs, Registers { rip: LOC.0, rax: 8, rdi: 3, rsi: 1234, rdx: 0, ..snapshot() });
}

#[test]
fn unaligned_mmap_is_refused_before_it_is_made() {
    let call = RemoteCall::MmapAnon { at: None, length: 4097, prot: 7 };
    assert_eq!(call.validate(), Err(TeleError::MmapUnaligned));
    let call = RemoteCall::MmapAnon { at: Some(4096), length: 3 * 4096, prot: 7 };
    assert_eq!(call.validate(), Ok(()));
    assert_eq!(RemoteCall::Munmap { addr: 1, length: 1 }.validate(), Ok(()));
}

#[test]
fn brk_reports_the_break_that_came_back() {
    assert_eq!(RemoteCall::Brk { addr: 0 }.outcome(0x5555_6000), Ok(0x5555_6000));
    assert_eq!(RemoteCall::Brk { addr: 9 }.outcome(0), Ok(0));
    assert_eq!(RemoteCall::Brk { addr: 9 }.outcome(0x7fff_ffff_ffff_ffff), Ok(0x7fff_ffff_ffff_ffff));
}

#[test]
fn brk_fails_on_a_negative_result() {
    assert_eq!(RemoteCall::Brk { addr: 9 }.outcome(u64::MAX), Err(TeleError::BrkFailed));
    assert_eq!(RemoteCall::Brk { addr: 0 }.outcome((-38i64) as u64), Err(TeleError::BrkFailed));
    assert_eq!(
        RemoteCall::Brk { addr: 0 }.outcome(0x8000_0000_0000_0000),
        Err(TeleError::BrkFailed)
    );
}

#[test]
fn mmap_fails_on_a_negative_result_and_on_another_place() {
    let fixed = RemoteCall::MmapAnon { at: Some(0x10000), length: 4096, prot: 7 };
    assert_eq!(fixed.outcome(0x10000), Ok(0x10000));
    assert_eq!(fixed.outcome(u64::MAX), Err(TeleError::MmapFailed));
    assert_eq!(fixed.outcome((-12i64) as u64), Err(TeleError::MmapFailed));
    assert_eq!(fixed.outcome(0x20000), Err(TeleError::MmapMisplaced));
    let anywhere = RemoteCall::MmapAnon { at: None, length: 4096, prot: 7 };
    assert_eq!(anywhere.outcome(0x7f00_0000), Ok(0x7f00_0000));
    assert_eq!(anywhere.outcome(0x7fff_ffff_ffff_f000), Ok(0x7fff_ffff_ffff_f000));
    assert_eq!(anywhere.outcome(u64::MAX), Err(TeleError::MmapFailed));
    assert_eq!(anywhere.outcome((-12i64) as u64), Err(TeleError::MmapFailed));
    assert_eq!(anywhere.outcome((-4095i64) as u64), Err(TeleError::MmapFailed));
    assert_eq!(anywhere.outcome(0x8000_0000_0000_0000), Err(TeleError::MmapFailed));
    let at_zero = RemoteCall::MmapAnon { at: Some(0), length: 4096, prot: 7 };
    assert_eq!(at_zero.outcome(0x7f00_0000), Ok(0x7f00_0000));
    assert_eq!(at_zero.outcome((-12i64) as u64), Err(TeleError::MmapFailed));
    let high = RemoteCall::MmapAnon { at: Some(0xffff_8000_0000_0000), length: 4096, prot: 7 };
    assert_eq!(high.outcome(0xffff_8000_0000_0000), Err(TeleError::MmapFailed));
}

#[test]
fn munmap_must_return_zero() {
    let call = RemoteCall::Munmap { addr: 0x1000, length: 0x1000 };
    assert_eq!(call.outcome(0), Ok(0));
    assert_eq!(call.outcome(1), Err(TeleError::MunmapFailed));
    assert_eq!(call.outcome((-22i64) as u64), Err(TeleError::MunmapFailed));
}

#[test]
fn mremap_must_return_the_new_address() {
    let call = RemoteCall::Mremap { addr: 0x1000, length: 0x1000, new_addr: 0x9000 };
    assert_eq!(call.outcome(0x9000), Ok(0x9000));
    assert_eq!(call.outcome(u64::MAX), Err(TeleError::MremapFailed));
    assert_eq!(call.outcome((-14i64) as u64), Err(TeleError::MremapFailed));
    assert_eq!(call.outcome(0x8000), Err(TeleError::MremapMisplaced));
}

#[test]
fn open_yields_the_descriptor_and_fails_on_a_negative_result() {
    let call = RemoteCall::Open { path_addr: 0x1000, flags: 0 };
    assert_eq!(call.outcome(5), Ok(5));
    assert_eq!(call.outcome(0), Ok(0));
    assert_eq!(call.outcome((-2i64) as u64), Err(TeleError::OpenFailed));
    assert_eq!(call.outcome(0x8000_0000_0000_0000), Err(TeleError::OpenFailed));
    assert_eq!(call.outcome(0x1_0000_0007), Ok(7));
}

#[test]
fn dup2_must_return_the_new_descriptor() {
    let call = RemoteCall::Dup2 { oldfd: 9, newfd: 3 };
    assert_eq!(call.outcome(3), Ok(0));
    assert_eq!(call.outcome(9), Err(TeleError::Dup2Failed));
    assert_eq!(call.outcome((-9i64) as u64), Err(TeleError::Dup2Failed));
}

#[test]
fn lseek_must_return_the_offset() {
    let call = RemoteCall::Lseek { fd: 3, offset: 4000 };
    assert_eq!(call.outcome(4000), Ok(4000));
    assert_eq!(call.outcome(0), Err(TeleError::LseekFailed));
    assert_eq!(call.outcome((-9i64) as u64), Err(TeleError::LseekFailed));
    let far = RemoteCall::Lseek { fd: 3, offset: (-22i64) as u64 };
    assert_eq!(far.outcome((-22i64) as u64), Err(TeleError::LseekFailed));
}

#[test]
fn locator_returns_the_first_occurrence() {
    let mut page = vec![0u8; 4096];
    page[700] = 0x0f;
    page[701] = 0x05;
    page[100] = 0x0f;
    page[101] = 0x05;
    assert_eq!(find_syscall(&page), Some(100));
    assert_eq!(try_to_find_syscall(&page), Ok(100));
}

#[test]
fn locator_finds_the_instruction_at_both_ends() {
    let mut page = vec![0u8; 4096];
    page[4094] = 0x0f;
    page[4095] = 0x05;
    assert_eq!(find_syscall(&page), Some(4094));
    page[0] = 0x0f;
    page[1] = 0x05;
    assert_eq!(find_syscall(&page), Some(0));
}

#[test]
fn locator_fails_on_a_page_without_the_instruction() {
    let page = vec![0x90u8; 4096];
    assert_eq!(find_syscall(&page), None);
    assert_eq!(try_to_find_syscall(&page), Err(TeleError::SyscallNotFound));
    assert_eq!(TeleError::SyscallNotFound.message(), "couldn't find syscall");
}

#[test]
fn locator_wants_the_two_bytes_side_by_side_and_in_order() {
    assert_eq!(find_syscall(&[0x05, 0x0f]), None);
    assert_eq!(find_syscall(&[0x0f, 0x00, 0x05]), None);
    assert_eq!(find_syscall(&[0x0f]), None);
    assert_eq!(find_syscall(&[]), None);
    assert_eq!(find_syscall(&[0x0f, 0x0f, 0x05]), Some(1));
}

#[test]
fn location_is_base_plus_offset() {
    assert_eq!(SyscallLoc::at(0x7ffd_0000, 0xa3c), Some(SyscallLoc(0x7ffd_0a3c)));
    assert_eq!(SyscallLoc::at(u64::MAX, 0), Some(SyscallLoc(u64::MAX)));
    assert_eq!(SyscallLoc::at(u64::MAX, 1), None);
}

#[test]
fn value_handed_over_is_sign_extended() {
    assert_eq!(wake_value(0), 0);
    assert_eq!(wake_value(1), 1);
    assert_eq!(wake_value(i32::MAX), 0x7fff_ffff);
    assert_eq!(wake_value(-1), u64::MAX);
    assert_eq!(wake_value(i32::MIN), 0xffff_ffff_8000_0000);
    assert_eq!(wake_value(-7), (-7i32) as u64);
}
