//! Reading commands from the bytes of the channel.
//!
//! A reader that has only the first bytes of a command learns how many more
//! it needs at the least, so that it never takes from the channel a byte
//! that belongs to what follows the command.

use crate::descriptors::{
    spec_insert, Connection, ConnectionMap, ConnectionView, FileConnection, StdioConnection,
    TcpConnection,
};
use crate::failure::TeleError;
use crate::maps::{Mapping, MappingView};
use crate::text::string_from_utf8;
use crate::wire::{
    Command, CommandView, ProcessState, TAG_FILE, TAG_FILE_DESCRIPTORS, TAG_INVALID, TAG_MAPPING,
    TAG_PROCESS_STATE, TAG_REMAP, TAG_RESUME, TAG_STDIO, TAG_TCP,
};
use vstd::bytes::*;
use vstd::prelude::*;
use vstd::slice::{slice_subrange, slice_to_vec};
use vstd::utf8::*;

verus! {

/// What reading a value at some position of the bytes comes to.
pub enum Parsed<T> {
    /// The value, and the position after it.
    Done { value: T, next: int },
    /// The bytes end inside the value: at least `need` more belong to it.
    Short { need: int },
    /// The bytes at the position are no such value.
    Bad { error: TeleError },
}

/// Reads a number of four bytes.
pub open spec fn parse_u32(bytes: Seq<u8>, pos: int) -> Parsed<u32> {
    if pos + 4 <= bytes.len() {
        Parsed::Done { value: spec_u32_from_le_bytes(bytes.subrange(pos, pos + 4)), next: pos + 4 }
    } else {
        Parsed::Short { need: pos + 4 - bytes.len() }
    }
}

/// Reads a number of eight bytes.
pub open spec fn parse_u64(bytes: Seq<u8>, pos: int) -> Parsed<u64> {
    if pos + 8 <= bytes.len() {
        Parsed::Done { value: spec_u64_from_le_bytes(bytes.subrange(pos, pos + 8)), next: pos + 8 }
    } else {
        Parsed::Short { need: pos + 8 - bytes.len() }
    }
}

/// Reads a flag: one byte, 0 or 1.
pub open spec fn parse_bool(bytes: Seq<u8>, pos: int) -> Parsed<bool> {
    if pos + 1 <= bytes.len() {
        if bytes[pos] == 0 {
            Parsed::Done { value: false, next: pos + 1 }
        } else if bytes[pos] == 1 {
            Parsed::Done { value: true, next: pos + 1 }
        } else {
            Parsed::Bad { error: TeleError::BadBool }
        }
    } else {
        Parsed::Short { need: 1 }
    }
}

/// Reads a text: its length in bytes, then that many bytes of UTF-8.
pub open spec fn parse_text(bytes: Seq<u8>, pos: int) -> Parsed<Seq<char>> {
    match parse_u64(bytes, pos) {
        Parsed::Done { value: len, next } => {
            if next + len > bytes.len() {
                Parsed::Short { need: next + len - bytes.len() }
            } else if valid_utf8(bytes.subrange(next, next + len)) {
                Parsed::Done {
                    value: decode_utf8(bytes.subrange(next, next + len)),
                    next: next + len,
                }
            } else {
                Parsed::Bad { error: TeleError::BadText }
            }
        },
        Parsed::Short { need } => Parsed::Short { need },
        Parsed::Bad { error } => Parsed::Bad { error },
    }
}

/// Reads an optional text: one byte, 0 or 1, then the text if it was 1.
pub open spec fn parse_opt_text(bytes: Seq<u8>, pos: int) -> Parsed<Option<Seq<char>>> {
    if pos + 1 <= bytes.len() {
        if bytes[pos] == 0 {
            Parsed::Done { value: None, next: pos + 1 }
        } else if bytes[pos] == 1 {
            match parse_text(bytes, pos + 1) {
                Parsed::Done { value, next } => Parsed::Done { value: Some(value), next },
                Parsed::Short { need } => Parsed::Short { need },
                Parsed::Bad { error } => Parsed::Bad { error },
            }
        } else {
            Parsed::Bad { error: TeleError::BadOptionTag }
        }
    } else {
        Parsed::Short { need: 1 }
    }
}

/// Reads the description of a map.
pub open spec fn parse_mapping(bytes: Seq<u8>, pos: int) -> Parsed<MappingView> {
    match parse_opt_text(bytes, pos) {
        Parsed::Done { value: name, next: p1 } => match parse_bool(bytes, p1) {
            Parsed::Done { value: readable, next: p2 } => match parse_bool(bytes, p2) {
                Parsed::Done { value: writeable, next: p3 } => match parse_bool(bytes, p3) {
                    Parsed::Done { value: executable, next: p4 } => match parse_u64(bytes, p4) {
                        Parsed::Done { value: addr, next: p5 } => match parse_u64(bytes, p5) {
                            Parsed::Done { value: size, next: p6 } => Parsed::Done {
                                value: MappingView {
                                    name,
                                    readable,
                                    writeable,
                                    executable,
                                    addr,
                                    size,
                                },
                                next: p6,
                            },
                            Parsed::Short { need } => Parsed::Short { need },
                            Parsed::Bad { error } => Parsed::Bad { error },
                        },
                        Parsed::Short { need } => Parsed::Short { need },
                        Parsed::Bad { error } => Parsed::Bad { error },
                    },
                    Parsed::Short { need } => Parsed::Short { need },
                    Parsed::Bad { error } => Parsed::Bad { error },
                },
                Parsed::Short { need } => Parsed::Short { need },
                Parsed::Bad { error } => Parsed::Bad { error },
            },
            Parsed::Short { need } => Parsed::Short { need },
            Parsed::Bad { error } => Parsed::Bad { error },
        },
        Parsed::Short { need } => Parsed::Short { need },
        Parsed::Bad { error } => Parsed::Bad { error },
    }
}

/// Reads the two texts of a socket.
pub open spec fn parse_tcp(bytes: Seq<u8>, pos: int) -> Parsed<ConnectionView> {
    match parse_text(bytes, pos) {
        Parsed::Done { value: local_addr, next: p1 } => match parse_text(bytes, p1) {
            Parsed::Done { value: remote_addr, next: p2 } => Parsed::Done {
                value: ConnectionView::Tcp { local_addr, remote_addr },
                next: p2,
            },
            Parsed::Short { need } => Parsed::Short { need },
            Parsed::Bad { error } => Parsed::Bad { error },
        },
        Parsed::Short { need } => Parsed::Short { need },
        Parsed::Bad { error } => Parsed::Bad { error },
    }
}

/// Reads the path and the offset of a file.
pub open spec fn parse_file(bytes: Seq<u8>, pos: int) -> Parsed<ConnectionView> {
    match parse_text(bytes, pos) {
        Parsed::Done { value: path, next: p1 } => match parse_u64(bytes, p1) {
            Parsed::Done { value: offset, next: p2 } => Parsed::Done {
                value: ConnectionView::File { path, offset },
                next: p2,
            },
            Parsed::Short { need } => Parsed::Short { need },
            Parsed::Bad { error } => Parsed::Bad { error },
        },
        Parsed::Short { need } => Parsed::Short { need },
        Parsed::Bad { error } => Parsed::Bad { error },
    }
}

/// Reads the record of a descriptor: a tag, then what the tag calls for.
pub open spec fn parse_connection(bytes: Seq<u8>, pos: int) -> Parsed<ConnectionView> {
    match parse_u32(bytes, pos) {
        Parsed::Done { value: tag, next } => {
            if tag == TAG_INVALID {
                Parsed::Done { value: ConnectionView::Invalid, next }
            } else if tag == TAG_TCP {
                parse_tcp(bytes, next)
            } else if tag == TAG_FILE {
                parse_file(bytes, next)
            } else if tag == TAG_STDIO {
                Parsed::Done { value: ConnectionView::Stdio, next }
            } else {
                Parsed::Bad { error: TeleError::BadConnectionTag }
            }
        },
        Parsed::Short { need } => Parsed::Short { need },
        Parsed::Bad { error } => Parsed::Bad { error },
    }
}

/// Reads `count` entries of a table of descriptors and records each in
/// `table`, a later entry in place of an earlier one of the same number.
pub open spec fn parse_entries(
    bytes: Seq<u8>,
    pos: int,
    count: nat,
    table: Seq<(u32, ConnectionView)>,
) -> Parsed<Seq<(u32, ConnectionView)>>
    decreases count,
{
    if count == 0 {
        Parsed::Done { value: table, next: pos }
    } else {
        match parse_u32(bytes, pos) {
            Parsed::Done { value: fd, next: p1 } => match parse_connection(bytes, p1) {
                Parsed::Done { value: c, next: p2 } => parse_entries(
                    bytes,
                    p2,
                    (count - 1) as nat,
                    spec_insert(table, fd, c),
                ),
                Parsed::Short { need } => Parsed::Short { need },
                Parsed::Bad { error } => Parsed::Bad { error },
            },
            Parsed::Short { need } => Parsed::Short { need },
            Parsed::Bad { error } => Parsed::Bad { error },
        }
    }
}

/// Reads a directive to move a map.
pub open spec fn parse_remap(bytes: Seq<u8>, pos: int) -> Parsed<CommandView> {
    match parse_text(bytes, pos) {
        Parsed::Done { value: name, next: p1 } => match parse_u64(bytes, p1) {
            Parsed::Done { value: addr, next: p2 } => match parse_u64(bytes, p2) {
                Parsed::Done { value: size, next: p3 } => Parsed::Done {
                    value: CommandView::Remap { name, addr, size },
                    next: p3,
                },
                Parsed::Short { need } => Parsed::Short { need },
                Parsed::Bad { error } => Parsed::Bad { error },
            },
            Parsed::Short { need } => Parsed::Short { need },
            Parsed::Bad { error } => Parsed::Bad { error },
        },
        Parsed::Short { need } => Parsed::Short { need },
        Parsed::Bad { error } => Parsed::Bad { error },
    }
}

/// Reads a table of descriptors: the number of entries, then the entries.
pub open spec fn parse_table(bytes: Seq<u8>, pos: int) -> Parsed<CommandView> {
    match parse_u64(bytes, pos) {
        Parsed::Done { value: count, next } => match parse_entries(
            bytes,
            next,
            count as nat,
            Seq::empty(),
        ) {
            Parsed::Done { value, next } => Parsed::Done {
                value: CommandView::FileDescriptors(value),
                next,
            },
            Parsed::Short { need } => Parsed::Short { need },
            Parsed::Bad { error } => Parsed::Bad { error },
        },
        Parsed::Short { need } => Parsed::Short { need },
        Parsed::Bad { error } => Parsed::Bad { error },
    }
}

/// Reads the command that the bytes start with.
pub open spec fn spec_decode(bytes: Seq<u8>) -> Parsed<CommandView> {
    match parse_u32(bytes, 0) {
        Parsed::Done { value: tag, next } => {
            if tag == TAG_PROCESS_STATE {
                match parse_u64(bytes, next) {
                    Parsed::Done { value, next } => Parsed::Done {
                        value: CommandView::ProcessState { brk_addr: value },
                        next,
                    },
                    Parsed::Short { need } => Parsed::Short { need },
                    Parsed::Bad { error } => Parsed::Bad { error },
                }
            } else if tag == TAG_MAPPING {
                match parse_mapping(bytes, next) {
                    Parsed::Done { value, next } => Parsed::Done {
                        value: CommandView::Mapping(value),
                        next,
                    },
                    Parsed::Short { need } => Parsed::Short { need },
                    Parsed::Bad { error } => Parsed::Bad { error },
                }
            } else if tag == TAG_REMAP {
                parse_remap(bytes, next)
            } else if tag == TAG_FILE_DESCRIPTORS {
                parse_table(bytes, next)
            } else if tag == TAG_RESUME {
                match parse_u64(bytes, next) {
                    Parsed::Done { value, next } => Parsed::Done {
                        value: CommandView::ResumeWithRegisters { len: value },
                        next,
                    },
                    Parsed::Short { need } => Parsed::Short { need },
                    Parsed::Bad { error } => Parsed::Bad { error },
                }
            } else {
                Parsed::Bad { error: TeleError::BadCommandTag }
            }
        },
        Parsed::Short { need } => Parsed::Short { need },
        Parsed::Bad { error } => Parsed::Bad { error },
    }
}

/// What reading a value from a slice came to.
enum Step<T> {
    Done(T, usize),
    Short(u64),
    Bad(TeleError),
}

/// Whether what was read is what the bytes hold.
spec fn agrees<T: View>(r: Step<T>, p: Parsed<T::V>, len: nat) -> bool {
    match r {
        Step::Done(v, n) => p == (Parsed::Done { value: v@, next: n as int }) && n <= len,
        Step::Short(k) => p == (Parsed::<T::V>::Short { need: k as int }) && k > 0,
        Step::Bad(e) => p == (Parsed::<T::V>::Bad { error: e }),
    }
}

fn take_u32(bytes: &[u8], pos: usize) -> (r: Step<u32>)
    requires
        pos <= bytes@.len(),
    ensures
        agrees(r, parse_u32(bytes@, pos as int), bytes@.len()),
{
    let left = bytes.len() - pos;
    if left >= 4 {
        Step::Done(u32_from_le_bytes(slice_subrange(bytes, pos, pos + 4)), pos + 4)
    } else {
        Step::Short((4 - left) as u64)
    }
}

fn take_u64(bytes: &[u8], pos: usize) -> (r: Step<u64>)
    requires
        pos <= bytes@.len(),
    ensures
        agrees(r, parse_u64(bytes@, pos as int), bytes@.len()),
{
    let left = bytes.len() - pos;
    if left >= 8 {
        Step::Done(u64_from_le_bytes(slice_subrange(bytes, pos, pos + 8)), pos + 8)
    } else {
        Step::Short((8 - left) as u64)
    }
}

fn take_bool(bytes: &[u8], pos: usize) -> (r: Step<bool>)
    requires
        pos <= bytes@.len(),
    ensures
        agrees(r, parse_bool(bytes@, pos as int), bytes@.len()),
{
    if pos < bytes.len() {
        let b = bytes[pos];
        if b == 0 {
            Step::Done(false, pos + 1)
        } else if b == 1 {
            Step::Done(true, pos + 1)
        } else {
            Step::Bad(TeleError::BadBool)
        }
    } else {
        Step::Short(1)
    }
}

fn take_text(bytes: &[u8], pos: usize) -> (r: Step<String>)
    requires
        pos <= bytes@.len(),
    ensures
        agrees(r, parse_text(bytes@, pos as int), bytes@.len()),
{
    match take_u64(bytes, pos) {
        Step::Done(len, next) => {
            let left = (bytes.len() - next) as u64;
            if len > left {
                return Step::Short(len - left);
            }
            let end = next + len as usize;
            let raw = slice_to_vec(slice_subrange(bytes, next, end));
            match string_from_utf8(raw) {
                Some(s) => {
                    proof {
                        encode_utf8_decode_utf8(s@);
                    }
                    Step::Done(s, end)
                },
                None => Step::Bad(TeleError::BadText),
            }
        },
        Step::Short(k) => Step::Short(k),
        Step::Bad(e) => Step::Bad(e),
    }
}

/// The name of a map as a mathematical value.
spec fn name_view(o: Option<String>) -> Option<Seq<char>> {
    match o {
        Some(s) => Some(s@),
        None => None,
    }
}

fn take_opt_text(bytes: &[u8], pos: usize) -> (r: Step<Option<String>>)
    requires
        pos <= bytes@.len(),
    ensures
        match r {
            Step::Done(v, n) => parse_opt_text(bytes@, pos as int) == (Parsed::Done {
                value: name_view(v),
                next: n as int,
            }) && n <= bytes@.len(),
            Step::Short(k) => parse_opt_text(bytes@, pos as int) == (Parsed::<
                Option<Seq<char>>,
            >::Short { need: k as int }) && k > 0,
            Step::Bad(e) => parse_opt_text(bytes@, pos as int) == (Parsed::<
                Option<Seq<char>>,
            >::Bad { error: e }),
        },
{
    if pos < bytes.len() {
        let b = bytes[pos];
        if b == 0 {
            Step::Done(None, pos + 1)
        } else if b == 1 {
            match take_text(bytes, pos + 1) {
                Step::Done(s, n) => Step::Done(Some(s), n),
                Step::Short(k) => Step::Short(k),
                Step::Bad(e) => Step::Bad(e),
            }
        } else {
            Step::Bad(TeleError::BadOptionTag)
        }
    } else {
        Step::Short(1)
    }
}

fn take_mapping(bytes: &[u8], pos: usize) -> (r: Step<Mapping>)
    requires
        pos <= bytes@.len(),
    ensures
        agrees(r, parse_mapping(bytes@, pos as int), bytes@.len()),
{
    let (name, p1) = match take_opt_text(bytes, pos) {
        Step::Done(v, n) => (v, n),
        Step::Short(k) => {
            return Step::Short(k);
        },
        Step::Bad(e) => {
            return Step::Bad(e);
        },
    };
    let (readable, p2) = match take_bool(bytes, p1) {
        Step::Done(v, n) => (v, n),
        Step::Short(k) => {
            return Step::Short(k);
        },
        Step::Bad(e) => {
            return Step::Bad(e);
        },
    };
    let (writeable, p3) = match take_bool(bytes, p2) {
        Step::Done(v, n) => (v, n),
        Step::Short(k) => {
            return Step::Short(k);
        },
        Step::Bad(e) => {
            return Step::Bad(e);
        },
    };
    let (executable, p4) = match take_bool(bytes, p3) {
        Step::Done(v, n) => (v, n),
        Step::Short(k) => {
            return Step::Short(k);
        },
        Step::Bad(e) => {
            return Step::Bad(e);
        },
    };
    let (addr, p5) = match take_u64(bytes, p4) {
        Step::Done(v, n) => (v, n),
        Step::Short(k) => {
            return Step::Short(k);
        },
        Step::Bad(e) => {
            return Step::Bad(e);
        },
    };
    let (size, p6) = match take_u64(bytes, p5) {
        Step::Done(v, n) => (v, n),
        Step::Short(k) => {
            return Step::Short(k);
        },
        Step::Bad(e) => {
            return Step::Bad(e);
        },
    };
    Step::Done(Mapping { name, readable, writeable, executable, addr, size }, p6)
}

fn take_connection(bytes: &[u8], pos: usize) -> (r: Step<Connection>)
    requires
        pos <= bytes@.len(),
    ensures
        agrees(r, parse_connection(bytes@, pos as int), bytes@.len()),
{
    let (tag, next) = match take_u32(bytes, pos) {
        Step::Done(v, n) => (v, n),
        Step::Short(k) => {
            return Step::Short(k);
        },
        Step::Bad(e) => {
            return Step::Bad(e);
        },
    };
    if tag == TAG_INVALID {
        Step::Done(Connection::Invalid, next)
    } else if tag == TAG_TCP {
        let (local_addr, p1) = match take_text(bytes, next) {
            Step::Done(v, n) => (v, n),
            Step::Short(k) => {
                return Step::Short(k);
            },
            Step::Bad(e) => {
                return Step::Bad(e);
            },
        };
        let (remote_addr, p2) = match take_text(bytes, p1) {
            Step::Done(v, n) => (v, n),
            Step::Short(k) => {
                return Step::Short(k);
            },
            Step::Bad(e) => {
                return Step::Bad(e);
            },
        };
        Step::Done(Connection::Tcp(TcpConnection { local_addr, remote_addr }), p2)
    } else if tag == TAG_FILE {
        let (path, p1) = match take_text(bytes, next) {
            Step::Done(v, n) => (v, n),
            Step::Short(k) => {
                return Step::Short(k);
            },
            Step::Bad(e) => {
                return Step::Bad(e);
            },
        };
        let (offset, p2) = match take_u64(bytes, p1) {
            Step::Done(v, n) => (v, n),
            Step::Short(k) => {
                return Step::Short(k);
            },
            Step::Bad(e) => {
                return Step::Bad(e);
            },
        };
        Step::Done(Connection::File(FileConnection { path, offset }), p2)
    } else if tag == TAG_STDIO {
        Step::Done(Connection::Stdio(StdioConnection {  }), next)
    } else {
        Step::Bad(TeleError::BadConnectionTag)
    }
}

fn take_table(bytes: &[u8], pos: usize) -> (r: Step<Command>)
    requires
        pos <= bytes@.len(),
    ensures
        agrees(r, parse_table(bytes@, pos as int), bytes@.len()),
{
    let (count, start) = match take_u64(bytes, pos) {
        Step::Done(v, n) => (v, n),
        Step::Short(k) => {
            return Step::Short(k);
        },
        Step::Bad(e) => {
            return Step::Bad(e);
        },
    };
    let mut table = ConnectionMap::new();
    let mut at = start;
    let mut left = count;
    while left > 0
        invariant
            at <= bytes@.len(),
            parse_u64(bytes@, pos as int) == (Parsed::Done { value: count, next: start as int }),
            parse_entries(bytes@, start as int, count as nat, Seq::empty()) == parse_entries(
                bytes@,
                at as int,
                left as nat,
                table@,
            ),
        decreases left,
    {
        let (fd, p1) = match take_u32(bytes, at) {
            Step::Done(v, n) => (v, n),
            Step::Short(k) => {
                return Step::Short(k);
            },
            Step::Bad(e) => {
                return Step::Bad(e);
            },
        };
        let (c, p2) = match take_connection(bytes, p1) {
            Step::Done(v, n) => (v, n),
            Step::Short(k) => {
                return Step::Short(k);
            },
            Step::Bad(e) => {
                return Step::Bad(e);
            },
        };
        table.insert(fd, c);
        at = p2;
        left -= 1;
    }
    Step::Done(Command::FileDescriptors(table), at)
}

fn take_remap(bytes: &[u8], pos: usize) -> (r: Step<Command>)
    requires
        pos <= bytes@.len(),
    ensures
        agrees(r, parse_remap(bytes@, pos as int), bytes@.len()),
{
    let (name, p1) = match take_text(bytes, pos) {
        Step::Done(v, n) => (v, n),
        Step::Short(k) => {
            return Step::Short(k);
        },
        Step::Bad(e) => {
            return Step::Bad(e);
        },
    };
    let (addr, p2) = match take_u64(bytes, p1) {
        Step::Done(v, n) => (v, n),
        Step::Short(k) => {
            return Step::Short(k);
        },
        Step::Bad(e) => {
            return Step::Bad(e);
        },
    };
    let (size, p3) = match take_u64(bytes, p2) {
        Step::Done(v, n) => (v, n),
        Step::Short(k) => {
            return Step::Short(k);
        },
        Step::Bad(e) => {
            return Step::Bad(e);
        },
    };
    Step::Done(Command::Remap { name, addr, size }, p3)
}

/// What reading a command from the first bytes of the channel came to.
#[derive(Debug, PartialEq, Eq)]
pub enum Decoded {
    /// A command, and the number of bytes that it took.
    Complete { command: Command, consumed: usize },
    /// The bytes end inside a command: at least `need` more belong to it.
    Incomplete { need: u64 },
    /// The bytes start no command.
    Malformed(TeleError),
}

/// Reads the command that the bytes start with. Bytes after the command are
/// not looked at.
pub fn decode(bytes: &[u8]) -> (r: Decoded)
    ensures
        match r {
            Decoded::Complete { command, consumed } => spec_decode(bytes@) == (Parsed::Done {
                value: command@,
                next: consumed as int,
            }) && consumed <= bytes@.len(),
            Decoded::Incomplete { need } => spec_decode(bytes@) == (Parsed::<
                CommandView,
            >::Short { need: need as int }) && need > 0,
            Decoded::Malformed(e) => spec_decode(bytes@) == (Parsed::<CommandView>::Bad {
                error: e,
            }),
        },
{
    let (tag, next) = match take_u32(bytes, 0) {
        Step::Done(v, n) => (v, n),
        Step::Short(k) => {
            return Decoded::Incomplete { need: k };
        },
        Step::Bad(e) => {
            return Decoded::Malformed(e);
        },
    };
    let step = if tag == TAG_PROCESS_STATE {
        match take_u64(bytes, next) {
            Step::Done(v, n) => Step::Done(Command::ProcessState(ProcessState { brk_addr: v }), n),
            Step::Short(k) => Step::Short(k),
            Step::Bad(e) => Step::Bad(e),
        }
    } else if tag == TAG_MAPPING {
        match take_mapping(bytes, next) {
            Step::Done(v, n) => Step::Done(Command::Mapping(v), n),
            Step::Short(k) => Step::Short(k),
            Step::Bad(e) => Step::Bad(e),
        }
    } else if tag == TAG_REMAP {
        take_remap(bytes, next)
    } else if tag == TAG_FILE_DESCRIPTORS {
        take_table(bytes, next)
    } else if tag == TAG_RESUME {
        match take_u64(bytes, next) {
            Step::Done(v, n) => Step::Done(Command::ResumeWithRegisters { len: v }, n),
            Step::Short(k) => Step::Short(k),
            Step::Bad(e) => Step::Bad(e),
        }
    } else {
        Step::Bad(TeleError::BadCommandTag)
    };
    match step {
        Step::Done(command, consumed) => Decoded::Complete { command, consumed },
        Step::Short(need) => Decoded::Incomplete { need },
        Step::Bad(e) => Decoded::Malformed(e),
    }
}

} // verus!
