use telefork::accept::{Acceptor, Action, Event, Warning};
use telefork::decode::{decode, Decoded};
use telefork::descriptors::{
    Connection, ConnectionMap, FileConnection, StdioConnection, TcpConnection,
};
use telefork::emit::{write_state, StreamItem};
use telefork::failure::{ErrorKind, TeleError};
use telefork::maps::Mapping;
use telefork::memory::{transfer_outcome, Transfer};
use telefork::registers::Registers;
use telefork::syscall::{RemoteCall, SyscallLoc};
use telefork::wire::{encode, Command, ProcessState};

const DONOR_VDSO: u64 = 0x7ffd_1111_0000;
const VICTIM_VDSO: u64 = 0x7ffd_2222_0000;
const OFFSET: u64 = 0x6a9;
const SCRATCH: u64 = 0x7f55_0000_0000;

fn map(name: Option<&str>, perms: &str, addr: u64, size: u64) -> Mapping {
    Mapping {
        name: name.map(|n| n.to_string()),
        readable: perms.contains('r'),
        writeable: perms.contains('w'),
        executable: perms.contains('x'),
        addr,
        size,
    }
}

/// What the donor holds at an address: the words x * 2654435761 mod 2^32,
/// counted from the start of the address space.
fn donor_bytes(addr: u64, len: u64) -> Vec<u8> {
    assert_eq!(addr % 4, 0);
    let mut out = Vec::with_capacity(len as usize);
    let mut word: u64 = addr / 4;
    while (out.len() as u64) < len {
        let value = (word.wrapping_mul(2654435761) % (1u64 << 32)) as u32;
        out.extend_from_slice(&value.to_le_bytes());
        word += 1;
    }
    out.truncate(len as usize);
    out
}

fn donor_maps(heap_size: u64) -> Vec<Mapping> {
    vec![
        map(Some("/usr/bin/counter"), "rx", 0x5555_0000_0000, 0x3000),
        map(Some("[heap]"), "rw", 0x5555_0100_0000, heap_size),
        map(None, "", 0x7f00_0000_0000, 0x1000),
        map(Some("[stack]"), "rw", 0x7ffc_0000_0000, 0x2000),
        map(Some("[vvar]"), "r", DONOR_VDSO - 0x4000, 0x4000),
        map(Some("[vdso]"), "rx", DONOR_VDSO, 0x2000),
    ]
}

fn donor_table() -> ConnectionMap {
    let mut t = ConnectionMap::new();
    t.insert(0, Connection::Stdio(StdioConnection {}));
    t.insert(1, Connection::Stdio(StdioConnection {}));
    t.insert(2, Connection::Stdio(StdioConnection {}));
    t.insert(3, Connection::File(FileConnection { path: "/tmp/data".to_string(), offset: 440 }));
    t.insert(
        4,
        Connection::Tcp(TcpConnection {
            local_addr: "socket:[31337]".to_string(),
            remote_addr: "socket:[31337]".to_string(),
        }),
    );
    t
}

fn donor_registers() -> Registers {
    Registers {
        rip: 0x5555_0000_1234,
        rsp: 0x7ffc_0000_1f00,
        rax: 0xffff_ffff_ffff_fdfe,
        orig_rax: 0xea,
        rdi: 3,
        eflags: 0x246,
        cs: 0x33,
        ss: 0x2b,
        fs_base: 0x7f00_dead_0000,
        ..Registers::zeroed()
    }
}

/// Writes out a donor as the emitting side does: each command in its form
/// on the channel, contents piece by piece, the registers as bytes.
fn emit(heap_size: u64) -> Vec<u8> {
    let items = write_state(
        ProcessState { brk_addr: 0x5555_0500_0000 },
        &donor_maps(heap_size),
        donor_table(),
        donor_registers(),
    )
    .unwrap();
    let mut channel = Vec::new();
    for item in &items {
        match item {
            StreamItem::Command(command) => channel.extend_from_slice(&encode(command)),
            StreamItem::Contents { addr, size } => {
                let mut transfer = Transfer::new(*addr, *size).unwrap();
                while let Some(chunk) = transfer.next_chunk() {
                    let piece = donor_bytes(chunk.addr, chunk.len);
                    transfer_outcome(chunk.len, piece.len() as u64).unwrap();
                    channel.extend_from_slice(&piece);
                }
            }
            StreamItem::Registers(regs) => channel.extend_from_slice(&regs.to_bytes()),
        }
    }
    channel
}

struct Victim {
    brk: u64,
    calls: Vec<(RemoteCall, SyscallLoc)>,
    filled: Vec<(u64, Vec<u8>)>,
    poked: Vec<(u64, Vec<u8>)>,
    warnings: Vec<Warning>,
    resumed: Option<Registers>,
}

/// What a kernel that grants every call puts in the accumulator.
fn grant(victim: &mut Victim, call: &RemoteCall) -> u64 {
    match call {
        RemoteCall::Brk { addr } => {
            if *addr > victim.brk {
                victim.brk = *addr;
            }
            victim.brk
        }
        RemoteCall::MmapAnon { at: Some(addr), .. } => *addr,
        RemoteCall::MmapAnon { at: None, .. } => SCRATCH,
        RemoteCall::Munmap { .. } => 0,
        RemoteCall::Mremap { new_addr, .. } => *new_addr,
        RemoteCall::Open { .. } => 11,
        RemoteCall::Dup2 { newfd, .. } => *newfd as u64,
        RemoteCall::Lseek { offset, .. } => *offset,
    }
}

/// Takes `n` bytes from the channel, or as many as it still has.
fn take(channel: &[u8], pos: &mut usize, n: usize) -> Vec<u8> {
    let end = std::cmp::min(channel.len(), *pos + n);
    let piece = channel[*pos..end].to_vec();
    *pos = end;
    piece
}

/// Reads the next command as the accepting side does: it asks the channel
/// for exactly the bytes that the reader calls for.
fn read_command(channel: &[u8], pos: &mut usize) -> Result<Command, TeleError> {
    let mut buffer: Vec<u8> = Vec::new();
    loop {
        match decode(&buffer) {
            Decoded::Complete { command, consumed } => {
                assert_eq!(consumed, buffer.len());
                return Ok(command);
            }
            Decoded::Incomplete { need } => {
                let piece = take(channel, pos, need as usize);
                if piece.len() as u64 != need {
                    return Err(TeleError::Truncated);
                }
                buffer.extend_from_slice(&piece);
            }
            Decoded::Malformed(error) => return Err(error),
        }
    }
}

/// Restores from a channel into a victim whose kernel grants every call.
fn accept(channel: &[u8], pass_to_child: i32) -> Result<Victim, TeleError> {
    let victim_maps = vec![
        map(Some("/usr/bin/telepad"), "rx", 0x5555_9000_0000, 0x8000),
        map(Some("[heap]"), "rw", 0x5555_9100_0000, 0x21000),
        map(Some("[vvar]"), "r", VICTIM_VDSO - 0x4000, 0x4000),
        map(Some("[vdso]"), "rx", VICTIM_VDSO, 0x2000),
    ];
    let left = vec![
        map(Some("[vvar]"), "r", VICTIM_VDSO - 0x4000, 0x4000),
        map(Some("[vdso]"), "rx", VICTIM_VDSO, 0x2000),
    ];
    let mut page = vec![0u8; 4096];
    page[OFFSET as usize] = 0x0f;
    page[OFFSET as usize + 1] = 0x05;
    let mut victim = Victim {
        brk: 0x5555_9102_1000,
        calls: Vec::new(),
        filled: Vec::new(),
        poked: Vec::new(),
        warnings: Vec::new(),
        resumed: None,
    };
    let mut pos: usize = 0;
    let (mut acceptor, mut action) = Acceptor::new(victim_maps, &page, pass_to_child)?;
    loop {
        let event = match action {
            Action::NextCommand => {
                let command = read_command(channel, &mut pos)?;
                if let Command::FileDescriptors(table) = &command {
                    assert!(table.has_stdio_in_range());
                }
                Event::Command(command)
            }
            Action::Rescan => Event::Maps(left.clone()),
            Action::Call { call, loc } => {
                call.validate()?;
                let rax = grant(&mut victim, &call);
                victim.calls.push((call, loc));
                Event::Rax(rax)
            }
            Action::Fill { addr, length } => {
                let mut transfer = Transfer::new(addr, length)?;
                let mut contents = Vec::new();
                while let Some(chunk) = transfer.next_chunk() {
                    let piece = take(channel, &mut pos, chunk.len as usize);
                    transfer_outcome(chunk.len, piece.len() as u64)?;
                    contents.extend_from_slice(&piece);
                }
                victim.filled.push((addr, contents));
                Event::Done
            }
            Action::Poke { addr, bytes } => {
                victim.poked.push((addr, bytes));
                Event::Done
            }
            Action::ReadPayload { len } => Event::Payload(take(channel, &mut pos, len as usize)),
            Action::Resume { regs } => {
                victim.resumed = Some(regs);
                assert!(acceptor.is_finished());
                assert_eq!(pos, channel.len());
                return Ok(victim);
            }
        };
        let reaction = acceptor.step(event)?;
        victim.warnings.extend(reaction.warnings);
        action = reaction.action;
    }
}

#[test]
fn donor_is_rebuilt_from_its_stream() {
    let channel = emit(0x21000);
    let victim = accept(&channel, 7).unwrap();

    let before = SyscallLoc(VICTIM_VDSO + OFFSET);
    let after = SyscallLoc(DONOR_VDSO + OFFSET);
    let expected = vec![
        (RemoteCall::Munmap { addr: 0x5555_9000_0000, length: 0x8000 }, before),
        (RemoteCall::Munmap { addr: 0x5555_9100_0000, length: 0x21000 }, before),
        (RemoteCall::Brk { addr: 0 }, before),
        (RemoteCall::Brk { addr: 0x5555_0500_0000 }, before),
        (
            RemoteCall::Mremap {
                addr: VICTIM_VDSO - 0x4000,
                length: 0x4000,
                new_addr: DONOR_VDSO - 0x4000,
            },
            before,
        ),
        (
            RemoteCall::Mremap { addr: VICTIM_VDSO, length: 0x2000, new_addr: DONOR_VDSO },
            before,
        ),
        (RemoteCall::MmapAnon { at: Some(0x5555_0000_0000), length: 0x3000, prot: 7 }, after),
        (RemoteCall::MmapAnon { at: Some(0x5555_0100_0000), length: 0x21000, prot: 7 }, after),
        (RemoteCall::MmapAnon { at: Some(0x7ffc_0000_0000), length: 0x2000, prot: 7 }, after),
        (RemoteCall::MmapAnon { at: None, length: 4096, prot: 7 }, after),
        (RemoteCall::Open { path_addr: SCRATCH, flags: 0 }, after),
        (RemoteCall::Munmap { addr: SCRATCH, length: 9 }, after),
        (RemoteCall::Dup2 { oldfd: 11, newfd: 3 }, after),
        (RemoteCall::Lseek { fd: 3, offset: 440 }, after),
    ];
    assert_eq!(victim.calls, expected);

    assert_eq!(
        victim.filled,
        vec![
            (0x5555_0000_0000, donor_bytes(0x5555_0000_0000, 0x3000)),
            (0x5555_0100_0000, donor_bytes(0x5555_0100_0000, 0x21000)),
            (0x7ffc_0000_0000, donor_bytes(0x7ffc_0000_0000, 0x2000)),
        ]
    );
    assert_eq!(victim.poked, vec![(SCRATCH, b"/tmp/data".to_vec())]);
    assert_eq!(victim.warnings, vec![Warning::SocketSkipped(4)]);
    assert_eq!(victim.resumed, Some(Registers { rax: 7, ..donor_registers() }));
}

#[test]
fn break_above_the_victims_is_trimmed_back() {
    let channel = emit(0x1000);
    let victim_brk: u64 = 0x5555_9102_1000;
    let victim = accept(&channel, 0).unwrap();
    assert_eq!(victim.brk, victim_brk);
    let items = write_state(
        ProcessState { brk_addr: 0x6000_0000_0000 },
        &donor_maps(0x1000),
        ConnectionMap::new(),
        donor_registers(),
    )
    .unwrap();
    let mut channel = Vec::new();
    for item in &items {
        match item {
            StreamItem::Command(command) => channel.extend_from_slice(&encode(command)),
            StreamItem::Contents { addr, size } => {
                channel.extend_from_slice(&donor_bytes(*addr, *size))
            }
            StreamItem::Registers(regs) => channel.extend_from_slice(&regs.to_bytes()),
        }
    }
    let victim = accept(&channel, 0).unwrap();
    let at = SyscallLoc(VICTIM_VDSO + OFFSET);
    assert_eq!(
        victim.calls[2..5].to_vec(),
        vec![
            (RemoteCall::Brk { addr: 0 }, at),
            (RemoteCall::Brk { addr: 0x6000_0000_0000 }, at),
            (
                RemoteCall::Munmap {
                    addr: victim_brk,
                    length: 0x6000_0000_0000 - victim_brk
                },
                at
            ),
        ]
    );
}

#[test]
fn heap_of_64_mib_arrives_word_for_word() {
    let heap: u64 = 64 * 1024 * 1024;
    let channel = emit(heap);
    let victim = accept(&channel, 0).unwrap();
    let (addr, contents) = &victim.filled[1];
    assert_eq!(*addr, 0x5555_0100_0000);
    assert_eq!(contents.len() as u64, heap);
    let first_word: u64 = 0x5555_0100_0000 / 4;
    for k in [0u64, 1, 2, 1023, 1024, 4_000_000, 16 * 1024 * 1024 - 1] {
        let at = (4 * k) as usize;
        let word = u32::from_le_bytes([
            contents[at],
            contents[at + 1],
            contents[at + 2],
            contents[at + 3],
        ]);
        assert_eq!(word as u64, (first_word + k).wrapping_mul(2654435761) % (1u64 << 32));
    }
    assert!(*contents == donor_bytes(0x5555_0100_0000, heap));
}

#[test]
fn stream_cut_inside_the_contents_of_a_map_is_an_io_failure() {
    let channel = emit(0x21000);
    let first_map = encode(&Command::ProcessState(ProcessState { brk_addr: 0 })).len()
        + encode(&Command::Remap { name: "[vvar]".to_string(), addr: 0, size: 0 }).len()
        + encode(&Command::Remap { name: "[vdso]".to_string(), addr: 0, size: 0 }).len()
        + encode(&Command::Mapping(map(Some("/usr/bin/counter"), "rx", 0, 0))).len();
    for cut in [first_map, first_map + 1, first_map + 4096, first_map + 0x3000 - 1] {
        let error = accept(&channel[..cut], 0).err().unwrap();
        assert_eq!(error, TeleError::ShortTransfer);
        assert_eq!(error.kind(), ErrorKind::Io);
    }
    assert!(accept(&channel[..first_map + 0x3000], 0).is_err());
}

#[test]
fn stream_cut_inside_a_command_is_an_io_failure() {
    let channel = emit(0x1000);
    for cut in [0usize, 3, 4, 11, 12, 13, 20, 40] {
        let error = accept(&channel[..cut], 0).err().unwrap();
        assert_eq!(error, TeleError::Truncated);
        assert_eq!(error.kind(), ErrorKind::Io);
    }
}

#[test]
fn stream_cut_inside_the_registers_is_an_io_failure() {
    let channel = emit(0x1000);
    let error = accept(&channel[..channel.len() - 1], 0).err().unwrap();
    assert_eq!(error, TeleError::Truncated);
    let error = accept(&channel[..channel.len() - 216], 0).err().unwrap();
    assert_eq!(error, TeleError::Truncated);
}

#[test]
fn stream_that_is_no_stream_is_a_framing_failure() {
    let mut channel = emit(0x1000);
    channel[0] = 9;
    let error = accept(&channel, 0).err().unwrap();
    assert_eq!(error, TeleError::BadCommandTag);
    assert_eq!(error.kind(), ErrorKind::Framing);
}
