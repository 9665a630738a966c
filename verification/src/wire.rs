//! The commands of the stream and their form on the channel.
//!
//! A command is a tag of four bytes and then its fields in order. Numbers
//! are written least significant byte first: descriptor numbers and tags in
//! four bytes, addresses, sizes, offsets and lengths in eight. A flag is one
//! byte, 0 or 1. A text is its length in bytes and then its UTF-8 form. An
//! optional text is one byte, 0 for none and 1 for some, and then the text
//! if there is one. A table of descriptors is the number of its entries and
//! then the entries, each a descriptor number and a tagged record.
//!
//! The contents of a map and the register bundle are not part of a command:
//! they follow it on the channel, as many bytes as the command says.

use crate::descriptors::{Connection, ConnectionMap, ConnectionView};
use crate::maps::{Mapping, MappingView};
use vstd::bytes::*;
use vstd::prelude::*;
use vstd::string::*;
use vstd::utf8::*;

verus! {

/// The tag of [`Command::ProcessState`].
pub const TAG_PROCESS_STATE: u32 = 0;

/// The tag of [`Command::Mapping`].
pub const TAG_MAPPING: u32 = 1;

/// The tag of [`Command::Remap`].
pub const TAG_REMAP: u32 = 2;

/// The tag of [`Command::FileDescriptors`].
pub const TAG_FILE_DESCRIPTORS: u32 = 3;

/// The tag of [`Command::ResumeWithRegisters`].
pub const TAG_RESUME: u32 = 4;

/// The tag of [`Connection::Invalid`].
pub const TAG_INVALID: u32 = 0;

/// The tag of [`Connection::Tcp`].
pub const TAG_TCP: u32 = 1;

/// The tag of [`Connection::File`].
pub const TAG_FILE: u32 = 2;

/// The tag of [`Connection::Stdio`].
pub const TAG_STDIO: u32 = 3;

/// What of a process lies outside its memory and registers.
#[derive(Debug, Clone, Copy, PartialEq, Eq, Structural)]
pub struct ProcessState {
    /// The program break: the end of the heap of old.
    pub brk_addr: u64,
}

/// One step of rebuilding a process.
#[derive(Debug, PartialEq, Eq)]
pub enum Command {
    /// Set the program break.
    ProcessState(ProcessState),
    /// Map a region; its contents follow the command.
    Mapping(Mapping),
    /// Move the map of that name, which the kernel manages, to an address.
    Remap { name: String, addr: u64, size: u64 },
    /// Reopen the descriptors.
    FileDescriptors(ConnectionMap),
    /// Set the registers and let the process run; the bundle follows the
    /// command, `len` bytes of it.
    ResumeWithRegisters { len: u64 },
}

/// A command as a mathematical value.
pub enum CommandView {
    ProcessState { brk_addr: u64 },
    Mapping(MappingView),
    Remap { name: Seq<char>, addr: u64, size: u64 },
    FileDescriptors(Seq<(u32, ConnectionView)>),
    ResumeWithRegisters { len: u64 },
}

impl View for Command {
    type V = CommandView;

    open spec fn view(&self) -> CommandView {
        match self {
            Command::ProcessState(p) => CommandView::ProcessState { brk_addr: p.brk_addr },
            Command::Mapping(m) => CommandView::Mapping(m@),
            Command::Remap { name, addr, size } => CommandView::Remap {
                name: name@,
                addr: *addr,
                size: *size,
            },
            Command::FileDescriptors(t) => CommandView::FileDescriptors(t@),
            Command::ResumeWithRegisters { len } => CommandView::ResumeWithRegisters { len: *len },
        }
    }
}

/// A flag on the channel.
pub open spec fn enc_bool(b: bool) -> Seq<u8> {
    seq![if b { 1u8 } else { 0u8 }]
}

/// A text on the channel.
pub open spec fn enc_text(s: Seq<char>) -> Seq<u8> {
    spec_u64_to_le_bytes(encode_utf8(s).len() as u64) + encode_utf8(s)
}

/// An optional text on the channel.
pub open spec fn enc_opt_text(o: Option<Seq<char>>) -> Seq<u8> {
    match o {
        None => seq![0u8],
        Some(s) => seq![1u8] + enc_text(s),
    }
}

/// A map's description on the channel.
pub open spec fn enc_mapping(m: MappingView) -> Seq<u8> {
    enc_opt_text(m.name) + enc_bool(m.readable) + enc_bool(m.writeable) + enc_bool(m.executable)
        + spec_u64_to_le_bytes(m.addr) + spec_u64_to_le_bytes(m.size)
}

/// A descriptor's record on the channel.
pub open spec fn enc_connection(c: ConnectionView) -> Seq<u8> {
    match c {
        ConnectionView::Invalid => spec_u32_to_le_bytes(TAG_INVALID),
        ConnectionView::Tcp { local_addr, remote_addr } => spec_u32_to_le_bytes(TAG_TCP)
            + enc_text(local_addr) + enc_text(remote_addr),
        ConnectionView::File { path, offset } => spec_u32_to_le_bytes(TAG_FILE) + enc_text(path)
            + spec_u64_to_le_bytes(offset),
        ConnectionView::Stdio => spec_u32_to_le_bytes(TAG_STDIO),
    }
}

/// An entry of the table of descriptors on the channel.
pub open spec fn enc_entry(e: (u32, ConnectionView)) -> Seq<u8> {
    spec_u32_to_le_bytes(e.0) + enc_connection(e.1)
}

/// The entries of a table of descriptors on the channel, one after the
/// other.
pub open spec fn enc_entries(entries: Seq<(u32, ConnectionView)>) -> Seq<u8>
    decreases entries.len(),
{
    if entries.len() == 0 {
        Seq::empty()
    } else {
        enc_entries(entries.drop_last()) + enc_entry(entries.last())
    }
}

/// A command on the channel.
pub open spec fn spec_encode(c: CommandView) -> Seq<u8> {
    match c {
        CommandView::ProcessState { brk_addr } => spec_u32_to_le_bytes(TAG_PROCESS_STATE)
            + spec_u64_to_le_bytes(brk_addr),
        CommandView::Mapping(m) => spec_u32_to_le_bytes(TAG_MAPPING) + enc_mapping(m),
        CommandView::Remap { name, addr, size } => spec_u32_to_le_bytes(TAG_REMAP) + enc_text(name)
            + spec_u64_to_le_bytes(addr) + spec_u64_to_le_bytes(size),
        CommandView::FileDescriptors(entries) => spec_u32_to_le_bytes(TAG_FILE_DESCRIPTORS)
            + spec_u64_to_le_bytes(entries.len() as u64) + enc_entries(entries),
        CommandView::ResumeWithRegisters { len } => spec_u32_to_le_bytes(TAG_RESUME)
            + spec_u64_to_le_bytes(len),
    }
}

fn put_u32(out: &mut Vec<u8>, x: u32)
    ensures
        final(out)@ == old(out)@ + spec_u32_to_le_bytes(x),
{
    let mut piece = u32_to_le_bytes(x);
    out.append(&mut piece);
}

fn put_u64(out: &mut Vec<u8>, x: u64)
    ensures
        final(out)@ == old(out)@ + spec_u64_to_le_bytes(x),
{
    let mut piece = u64_to_le_bytes(x);
    out.append(&mut piece);
}

fn put_bool(out: &mut Vec<u8>, b: bool)
    ensures
        final(out)@ == old(out)@ + enc_bool(b),
{
    out.push(if b { 1u8 } else { 0u8 });
    assert(out@ =~= old(out)@ + enc_bool(b));
}

fn put_text(out: &mut Vec<u8>, s: &str)
    ensures
        final(out)@ == old(out)@ + enc_text(s@),
{
    let bytes = s.as_bytes();
    put_u64(out, bytes.len() as u64);
    out.extend_from_slice(bytes);
    assert(out@ =~= old(out)@ + enc_text(s@));
}

fn put_opt_text(out: &mut Vec<u8>, o: &Option<String>)
    ensures
        final(out)@ == old(out)@ + enc_opt_text(
            match *o {
                Some(s) => Some(s@),
                None => None,
            },
        ),
{
    match o {
        None => {
            out.push(0u8);
            assert(out@ =~= old(out)@ + seq![0u8]);
        },
        Some(s) => {
            out.push(1u8);
            put_text(out, s.as_str());
            assert(out@ =~= old(out)@ + (seq![1u8] + enc_text(s@)));
        },
    }
}

fn put_mapping(out: &mut Vec<u8>, m: &Mapping)
    ensures
        final(out)@ == old(out)@ + enc_mapping(m@),
{
    put_opt_text(out, &m.name);
    put_bool(out, m.readable);
    put_bool(out, m.writeable);
    put_bool(out, m.executable);
    put_u64(out, m.addr);
    put_u64(out, m.size);
    assert(out@ =~= old(out)@ + enc_mapping(m@));
}

fn put_connection(out: &mut Vec<u8>, c: &Connection)
    ensures
        final(out)@ == old(out)@ + enc_connection(c@),
{
    match c {
        Connection::Invalid => {
            put_u32(out, TAG_INVALID);
        },
        Connection::Tcp(t) => {
            put_u32(out, TAG_TCP);
            put_text(out, t.local_addr.as_str());
            put_text(out, t.remote_addr.as_str());
            assert(out@ =~= old(out)@ + enc_connection(c@));
        },
        Connection::File(f) => {
            put_u32(out, TAG_FILE);
            put_text(out, f.path.as_str());
            put_u64(out, f.offset);
            assert(out@ =~= old(out)@ + enc_connection(c@));
        },
        Connection::Stdio(_) => {
            put_u32(out, TAG_STDIO);
        },
    }
}

fn put_table(out: &mut Vec<u8>, table: &ConnectionMap)
    ensures
        final(out)@ == old(out)@ + spec_u64_to_le_bytes(table@.len() as u64) + enc_entries(table@),
{
    let n = table.len();
    put_u64(out, n as u64);
    let ghost start = out@;
    let mut i: usize = 0;
    assert(table@.take(0) =~= Seq::<(u32, ConnectionView)>::empty());
    assert(out@ =~= start + enc_entries(table@.take(0)));
    while i < n
        invariant
            i <= n,
            n == table@.len(),
            out@ == start + enc_entries(table@.take(i as int)),
        decreases n - i,
    {
        let ghost before = out@;
        put_u32(out, table.fd_at(i));
        put_connection(out, table.connection_at(i));
        proof {
            let longer = table@.take(i + 1);
            assert(longer.drop_last() =~= table@.take(i as int));
            assert(longer.last() == table@[i as int]);
            assert(out@ =~= start + enc_entries(longer));
        }
        i += 1;
    }
    assert(table@.take(n as int) =~= table@);
}

/// Writes a command out for the channel.
pub fn encode(command: &Command) -> (bytes: Vec<u8>)
    ensures
        bytes@ == spec_encode(command@),
{
    let mut out: Vec<u8> = Vec::new();
    match command {
        Command::ProcessState(p) => {
            put_u32(&mut out, TAG_PROCESS_STATE);
            put_u64(&mut out, p.brk_addr);
            assert(out@ =~= spec_encode(command@));
        },
        Command::Mapping(m) => {
            put_u32(&mut out, TAG_MAPPING);
            put_mapping(&mut out, m);
            assert(out@ =~= spec_encode(command@));
        },
        Command::Remap { name, addr, size } => {
            put_u32(&mut out, TAG_REMAP);
            put_text(&mut out, name.as_str());
            put_u64(&mut out, *addr);
            put_u64(&mut out, *size);
            assert(out@ =~= spec_encode(command@));
        },
        Command::FileDescriptors(table) => {
            put_u32(&mut out, TAG_FILE_DESCRIPTORS);
            put_table(&mut out, table);
            assert(out@ =~= spec_encode(command@));
        },
        Command::ResumeWithRegisters { len } => {
            put_u32(&mut out, TAG_RESUME);
            put_u64(&mut out, *len);
            assert(out@ =~= spec_encode(command@));
        },
    }
    out
}

} // verus!
