use telefork::registers::{Registers, REGISTERS_SIZE, REGISTER_COUNT};

fn numbered() -> Registers {
    Registers {
        r15: 1,
        r14: 2,
        r13: 3,
        r12: 4,
        rbp: 5,
        rbx: 6,
        r11: 7,
        r10: 8,
        r9: 9,
        r8: 10,
        rax: 11,
        rcx: 12,
        rdx: 13,
        rsi: 14,
        rdi: 15,
        orig_rax: 16,
        rip: 17,
        cs: 18,
        eflags: 19,
        rsp: 20,
        ss: 21,
        fs_base: 22,
        gs_base: 23,
        ds: 24,
        es: 25,
        fs: 26,
        gs: 27,
    }
}

#[test]
fn bundle_has_the_size_of_the_tracing_interface() {
    assert_eq!(REGISTER_COUNT, 27);
    assert_eq!(REGISTERS_SIZE, 216);
    assert_eq!(REGISTERS_SIZE, std::mem::size_of::<libc::user_regs_struct>());
}

#[test]
fn zeroed_bundle_is_all_zero_bytes() {
    assert_eq!(Registers::zeroed().to_bytes(), vec![0u8; 216]);
}

#[test]
fn bundle_is_written_word_by_word_in_order() {
    let bytes = numbered().to_bytes();
    assert_eq!(bytes.len(), 216);
    for k in 0..27usize {
        assert_eq!(bytes[8 * k], (k + 1) as u8);
        for j in 1..8usize {
            assert_eq!(bytes[8 * k + j], 0);
        }
    }
}

#[test]
fn words_are_written_least_significant_byte_first() {
    let regs = Registers { r15: 0x0102_0304_0506_0708, rax: 0xffff_ffff_ffff_fffe, ..Registers::zeroed() };
    let bytes = regs.to_bytes();
    assert_eq!(&bytes[0..8], &[8u8, 7, 6, 5, 4, 3, 2, 1][..]);
    assert_eq!(&bytes[80..88], &[0xfeu8, 0xff, 0xff, 0xff, 0xff, 0xff, 0xff, 0xff][..]);
}

#[test]
fn bundle_read_back_is_the_bundle_written() {
    let regs = Registers { rip: 0x7fff_dead_beef, rsp: u64::MAX, gs: 0x2b, ..numbered() };
    assert_eq!(Registers::from_bytes(&regs.to_bytes()), Some(regs));
}

#[test]
fn bytes_after_the_bundle_are_not_read() {
    let mut bytes = numbered().to_bytes();
    bytes.extend_from_slice(&[0xaa; 9]);
    assert_eq!(Registers::from_bytes(&bytes), Some(numbered()));
}

#[test]
fn short_payload_is_no_bundle() {
    let bytes = numbered().to_bytes();
    assert_eq!(Registers::from_bytes(&bytes[..215]), None);
    assert_eq!(Registers::from_bytes(&[]), None);
}

#[test]
fn payload_written_back_is_the_payload_read() {
    let mut bytes = Vec::new();
    for i in 0..216u32 {
        bytes.push((i * 7 + 3) as u8);
    }
    let regs = Registers::from_bytes(&bytes).unwrap();
    assert_eq!(regs.to_bytes(), bytes);
    assert_eq!(regs.r15, u64::from_le_bytes([3, 10, 17, 24, 31, 38, 45, 52]));
}
