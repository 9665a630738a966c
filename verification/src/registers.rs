//! The register bundle of a traced process, and its form on the channel.
//!
//! The bundle travels as 27 words of eight bytes each, least significant byte
//! first, in the order in which the tracing interface of x86-64 Linux lays
//! them out.

use vstd::bytes::*;
use vstd::prelude::*;
use vstd::slice::slice_subrange;

verus! {

/// How many registers a bundle holds.
pub const REGISTER_COUNT: usize = 27;

/// How many bytes a bundle takes on the channel.
pub const REGISTERS_SIZE: usize = 216;

/// The general-purpose and segment registers of a stopped process.
#[derive(Debug, Clone, Copy, PartialEq, Eq, Structural)]
pub struct Registers {
    pub r15: u64,
    pub r14: u64,
    pub r13: u64,
    pub r12: u64,
    pub rbp: u64,
    pub rbx: u64,
    pub r11: u64,
    pub r10: u64,
    pub r9: u64,
    pub r8: u64,
    pub rax: u64,
    pub rcx: u64,
    pub rdx: u64,
    pub rsi: u64,
    pub rdi: u64,
    pub orig_rax: u64,
    pub rip: u64,
    pub cs: u64,
    pub eflags: u64,
    pub rsp: u64,
    pub ss: u64,
    pub fs_base: u64,
    pub gs_base: u64,
    pub ds: u64,
    pub es: u64,
    pub fs: u64,
    pub gs: u64,
}

/// The bytes of a sequence of words: eight for each word, least significant
/// first, the words in order.
pub open spec fn words_to_bytes(words: Seq<u64>) -> Seq<u8> {
    Seq::new(8 * words.len(), |i: int| spec_u64_to_le_bytes(words[i / 8])[i % 8])
}

/// The first `count` words that a sequence of bytes spells.
pub open spec fn bytes_to_words(bytes: Seq<u8>, count: nat) -> Seq<u64> {
    Seq::new(count, |k: int| spec_u64_from_le_bytes(bytes.subrange(8 * k, 8 * k + 8)))
}

/// Reading back the bytes of some words gives those words, whatever follows
/// the bytes.
pub proof fn lemma_words_round_trip(words: Seq<u64>, rest: Seq<u8>)
    ensures
        bytes_to_words(words_to_bytes(words) + rest, words.len()) == words,
{
    lemma_auto_spec_u64_to_from_le_bytes();
    let bytes = words_to_bytes(words) + rest;
    assert forall|k: int| 0 <= k < words.len() implies bytes_to_words(bytes, words.len())[k]
        == words[k] by {
        let piece = bytes.subrange(8 * k, 8 * k + 8);
        let word = spec_u64_to_le_bytes(words[k]);
        assert forall|j: int| 0 <= j < 8 implies piece[j] == word[j] by {
            assert((8 * k + j) / 8 == k);
            assert((8 * k + j) % 8 == j);
        }
        assert(piece =~= word);
    }
    assert(bytes_to_words(bytes, words.len()) =~= words);
}

/// Writing out the words that some bytes spell gives those bytes again.
pub proof fn lemma_bytes_round_trip(bytes: Seq<u8>, count: nat)
    requires
        bytes.len() == 8 * count,
    ensures
        words_to_bytes(bytes_to_words(bytes, count)) == bytes,
{
    lemma_auto_spec_u64_to_from_le_bytes();
    let words = bytes_to_words(bytes, count);
    assert forall|i: int| 0 <= i < bytes.len() implies words_to_bytes(words)[i] == bytes[i] by {
        let k = i / 8;
        let piece = bytes.subrange(8 * k, 8 * k + 8);
        assert(piece.len() == 8);
        assert(spec_u64_to_le_bytes(spec_u64_from_le_bytes(piece)) == piece);
        assert(piece[i % 8] == bytes[8 * k + i % 8]);
    }
    assert(words_to_bytes(words) =~= bytes);
}

impl Registers {
    /// The registers as words, in the order of the tracing interface.
    pub open spec fn words(self) -> Seq<u64> {
        seq![
            self.r15,
            self.r14,
            self.r13,
            self.r12,
            self.rbp,
            self.rbx,
            self.r11,
            self.r10,
            self.r9,
            self.r8,
            self.rax,
            self.rcx,
            self.rdx,
            self.rsi,
            self.rdi,
            self.orig_rax,
            self.rip,
            self.cs,
            self.eflags,
            self.rsp,
            self.ss,
            self.fs_base,
            self.gs_base,
            self.ds,
            self.es,
            self.fs,
            self.gs,
        ]
    }

    /// The bundle that holds the given words.
    pub open spec fn of_words(words: Seq<u64>) -> Registers {
        Registers {
            r15: words[0],
            r14: words[1],
            r13: words[2],
            r12: words[3],
            rbp: words[4],
            rbx: words[5],
            r11: words[6],
            r10: words[7],
            r9: words[8],
            r8: words[9],
            rax: words[10],
            rcx: words[11],
            rdx: words[12],
            rsi: words[13],
            rdi: words[14],
            orig_rax: words[15],
            rip: words[16],
            cs: words[17],
            eflags: words[18],
            rsp: words[19],
            ss: words[20],
            fs_base: words[21],
            gs_base: words[22],
            ds: words[23],
            es: words[24],
            fs: words[25],
            gs: words[26],
        }
    }

    /// The bundle as it travels on the channel.
    pub open spec fn spec_to_bytes(self) -> Seq<u8> {
        words_to_bytes(self.words())
    }

    /// The bundle that the first 216 of the given bytes spell.
    pub open spec fn spec_from_bytes(bytes: Seq<u8>) -> Registers {
        Registers::of_words(bytes_to_words(bytes, REGISTER_COUNT as nat))
    }

    /// A bundle with every register zero.
    pub fn zeroed() -> (regs: Registers)
        ensures
            regs.words() == Seq::new(REGISTER_COUNT as nat, |i: int| 0u64),
    {
        let regs = Registers {
            r15: 0,
            r14: 0,
            r13: 0,
            r12: 0,
            rbp: 0,
            rbx: 0,
            r11: 0,
            r10: 0,
            r9: 0,
            r8: 0,
            rax: 0,
            rcx: 0,
            rdx: 0,
            rsi: 0,
            rdi: 0,
            orig_rax: 0,
            rip: 0,
            cs: 0,
            eflags: 0,
            rsp: 0,
            ss: 0,
            fs_base: 0,
            gs_base: 0,
            ds: 0,
            es: 0,
            fs: 0,
            gs: 0,
        };
        assert(regs.words() =~= Seq::new(REGISTER_COUNT as nat, |i: int| 0u64));
        regs
    }

    fn to_words(&self) -> (words: Vec<u64>)
        ensures
            words@ == self.words(),
    {
        let words = vec![
            self.r15,
            self.r14,
            self.r13,
            self.r12,
            self.rbp,
            self.rbx,
            self.r11,
            self.r10,
            self.r9,
            self.r8,
            self.rax,
            self.rcx,
            self.rdx,
            self.rsi,
            self.rdi,
            self.orig_rax,
            self.rip,
            self.cs,
            self.eflags,
            self.rsp,
            self.ss,
            self.fs_base,
            self.gs_base,
            self.ds,
            self.es,
            self.fs,
            self.gs,
        ];
        assert(words@ =~= self.words());
        words
    }

    fn from_words(words: &Vec<u64>) -> (regs: Registers)
        requires
            words@.len() == REGISTER_COUNT,
        ensures
            regs == Registers::of_words(words@),
    {
        Registers {
            r15: words[0],
            r14: words[1],
            r13: words[2],
            r12: words[3],
            rbp: words[4],
            rbx: words[5],
            r11: words[6],
            r10: words[7],
            r9: words[8],
            r8: words[9],
            rax: words[10],
            rcx: words[11],
            rdx: words[12],
            rsi: words[13],
            rdi: words[14],
            orig_rax: words[15],
            rip: words[16],
            cs: words[17],
            eflags: words[18],
            rsp: words[19],
            ss: words[20],
            fs_base: words[21],
            gs_base: words[22],
            ds: words[23],
            es: words[24],
            fs: words[25],
            gs: words[26],
        }
    }

    /// Writes the bundle out for the channel: 216 bytes.
    pub fn to_bytes(&self) -> (bytes: Vec<u8>)
        ensures
            bytes@ == self.spec_to_bytes(),
            bytes@.len() == REGISTERS_SIZE,
    {
        let words = self.to_words();
        let mut bytes: Vec<u8> = Vec::new();
        let mut k: usize = 0;
        while k < words.len()
            invariant
                k <= words.len(),
                words@.len() == REGISTER_COUNT,
                bytes@ == words_to_bytes(words@.take(k as int)),
            decreases words.len() - k,
        {
            let mut piece = u64_to_le_bytes(words[k]);
            let ghost before = bytes@;
            bytes.append(&mut piece);
            proof {
                let after = words_to_bytes(words@.take(k + 1));
                assert forall|i: int| 0 <= i < after.len() implies bytes@[i] == after[i] by {
                    if i < 8 * k {
                        assert(i / 8 < k);
                        assert(words@.take(k as int)[i / 8] == words@.take(k + 1)[i / 8]);
                    } else {
                        assert(i / 8 == k);
                        assert(i % 8 == i - 8 * k);
                    }
                }
                assert(bytes@ =~= after);
            }
            k += 1;
        }
        assert(words@.take(k as int) =~= words@);
        bytes
    }

    /// Reads a bundle from the start of a payload. A payload of fewer than
    /// 216 bytes holds no bundle; bytes beyond the 216th are not looked at.
    pub fn from_bytes(bytes: &[u8]) -> (r: Option<Registers>)
        ensures
            r is None <==> bytes@.len() < REGISTERS_SIZE,
            r matches Some(regs) ==> regs == Registers::spec_from_bytes(bytes@),
    {
        if bytes.len() < REGISTERS_SIZE {
            return None;
        }
        let mut words: Vec<u64> = Vec::new();
        let mut k: usize = 0;
        while k < REGISTER_COUNT
            invariant
                k <= REGISTER_COUNT,
                bytes@.len() >= REGISTERS_SIZE,
                words@ == bytes_to_words(bytes@, k as nat),
            decreases REGISTER_COUNT - k,
        {
            let word = u64_from_le_bytes(slice_subrange(bytes, 8 * k, 8 * k + 8));
            words.push(word);
            assert(words@ =~= bytes_to_words(bytes@, (k + 1) as nat));
            k += 1;
        }
        Some(Registers::from_words(&words))
    }
}

/// A bundle written out and read back is the same bundle, whatever follows
/// it in the payload.
pub proof fn lemma_registers_round_trip(regs: Registers, rest: Seq<u8>)
    ensures
        regs.spec_to_bytes().len() == REGISTERS_SIZE,
        Registers::spec_from_bytes(regs.spec_to_bytes() + rest) == regs,
{
    lemma_words_round_trip(regs.words(), rest);
}

/// A payload of exactly 216 bytes is the written form of the bundle read from
/// it: no two payloads spell the same bundle.
pub proof fn lemma_registers_bytes_round_trip(bytes: Seq<u8>)
    requires
        bytes.len() == REGISTERS_SIZE,
    ensures
        Registers::spec_from_bytes(bytes).spec_to_bytes() == bytes,
{
    lemma_bytes_round_trip(bytes, REGISTER_COUNT as nat);
    let words = bytes_to_words(bytes, REGISTER_COUNT as nat);
    assert(Registers::of_words(words).words() =~= words);
}

} // verus!
