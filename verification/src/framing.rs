//! What holds between writing commands and reading them.
//!
//! A command written to the channel is read back as the same command, and
//! the reading takes exactly the bytes that the writing gave. A reader that
//! has fewer bytes than the command takes is told so, and is never told to
//! fetch more than the command still has.

use crate::decode::{
    parse_bool, parse_connection, parse_entries, parse_mapping, parse_opt_text, parse_text,
    parse_u32, parse_u64, spec_decode, Parsed,
};
use crate::descriptors::{lemma_insert_rebuilds, spec_insert, unique_fds, ConnectionView};
use crate::maps::MappingView;
use crate::wire::{
    enc_bool, enc_connection, enc_entries, enc_entry, enc_mapping, enc_opt_text, enc_text,
    spec_encode, CommandView, TAG_FILE, TAG_FILE_DESCRIPTORS, TAG_INVALID, TAG_MAPPING,
    TAG_PROCESS_STATE, TAG_REMAP, TAG_RESUME, TAG_STDIO, TAG_TCP,
};
use vstd::bytes::*;
use vstd::prelude::*;
use vstd::utf8::*;

verus! {

/// Whether `piece` stands in `bytes` at `pos`.
pub open spec fn holds_at(bytes: Seq<u8>, pos: int, piece: Seq<u8>) -> bool {
    &&& 0 <= pos
    &&& pos + piece.len() <= bytes.len()
    &&& bytes.subrange(pos, pos + piece.len()) == piece
}

/// What reading comes to when only the first `k` bytes are there, of a value
/// that ends at `end`: the value if all of it is there; else a call for more
/// bytes, at least one and no more than the value still has.
pub open spec fn reads<T>(p: Parsed<T>, value: T, end: int, k: int) -> bool {
    if k >= end {
        p == (Parsed::Done { value, next: end })
    } else {
        p matches Parsed::Short { need } && 0 < need <= end - k
    }
}

/// Whether the length of a text in bytes can be written down.
pub open spec fn text_fits(s: Seq<char>) -> bool {
    encode_utf8(s).len() <= u64::MAX
}

/// Whether the texts of a descriptor's record can be written down.
pub open spec fn connection_fits(c: ConnectionView) -> bool {
    match c {
        ConnectionView::Tcp { local_addr, remote_addr } => text_fits(local_addr) && text_fits(
            remote_addr,
        ),
        ConnectionView::File { path, .. } => text_fits(path),
        _ => true,
    }
}

/// Whether the records of a table can be written down.
pub open spec fn entries_fit(entries: Seq<(u32, ConnectionView)>) -> bool {
    forall|i: int| 0 <= i < entries.len() ==> connection_fits((#[trigger] entries[i]).1)
}

/// Whether a command can be written down and is what its type promises: its
/// texts and its table are no longer than a length can say, and no
/// descriptor number occurs twice. This holds of every command in memory.
pub open spec fn representable(c: CommandView) -> bool {
    match c {
        CommandView::Mapping(m) => m.name matches Some(n) ==> text_fits(n),
        CommandView::Remap { name, .. } => text_fits(name),
        CommandView::FileDescriptors(entries) => entries.len() <= u64::MAX && unique_fds(entries)
            && entries_fit(entries),
        _ => true,
    }
}

proof fn lemma_split(bytes: Seq<u8>, pos: int, a: Seq<u8>, b: Seq<u8>)
    requires
        holds_at(bytes, pos, a + b),
    ensures
        holds_at(bytes, pos, a),
        holds_at(bytes, pos + a.len(), b),
{
    let whole = bytes.subrange(pos, pos + (a + b).len());
    assert forall|i: int| 0 <= i < a.len() implies bytes.subrange(pos, pos + a.len())[i]
        == a[i] by {
        assert(whole[i] == (a + b)[i]);
    }
    assert(bytes.subrange(pos, pos + a.len()) =~= a);
    assert forall|i: int| 0 <= i < b.len() implies bytes.subrange(
        pos + a.len(),
        pos + a.len() + b.len(),
    )[i] == b[i] by {
        assert(whole[a.len() + i] == (a + b)[a.len() + i]);
    }
    assert(bytes.subrange(pos + a.len(), pos + a.len() + b.len()) =~= b);
}

proof fn lemma_cut(full: Seq<u8>, k: int, from: int, to: int)
    requires
        0 <= from <= to <= k <= full.len(),
    ensures
        full.take(k).subrange(from, to) == full.subrange(from, to),
{
    assert(full.take(k).subrange(from, to) =~= full.subrange(from, to));
}

proof fn lemma_read_u32(full: Seq<u8>, pos: int, v: u32, k: int)
    requires
        holds_at(full, pos, spec_u32_to_le_bytes(v)),
        pos <= k <= full.len(),
    ensures
        spec_u32_to_le_bytes(v).len() == 4,
        reads(parse_u32(full.take(k), pos), v, pos + 4, k),
{
    lemma_auto_spec_u32_to_from_le_bytes();
    if k >= pos + 4 {
        lemma_cut(full, k, pos, pos + 4);
    }
}

proof fn lemma_read_u64(full: Seq<u8>, pos: int, v: u64, k: int)
    requires
        holds_at(full, pos, spec_u64_to_le_bytes(v)),
        pos <= k <= full.len(),
    ensures
        spec_u64_to_le_bytes(v).len() == 8,
        reads(parse_u64(full.take(k), pos), v, pos + 8, k),
{
    lemma_auto_spec_u64_to_from_le_bytes();
    if k >= pos + 8 {
        lemma_cut(full, k, pos, pos + 8);
    }
}

proof fn lemma_read_bool(full: Seq<u8>, pos: int, v: bool, k: int)
    requires
        holds_at(full, pos, enc_bool(v)),
        pos <= k <= full.len(),
    ensures
        reads(parse_bool(full.take(k), pos), v, pos + 1, k),
{
    if k >= pos + 1 {
        assert(full.subrange(pos, pos + 1)[0] == enc_bool(v)[0]);
    }
}

proof fn lemma_read_text(full: Seq<u8>, pos: int, s: Seq<char>, k: int)
    requires
        holds_at(full, pos, enc_text(s)),
        text_fits(s),
        pos <= k <= full.len(),
    ensures
        enc_text(s).len() == 8 + encode_utf8(s).len(),
        reads(parse_text(full.take(k), pos), s, pos + enc_text(s).len(), k),
{
    let raw = encode_utf8(s);
    let len = raw.len() as u64;
    lemma_split(full, pos, spec_u64_to_le_bytes(len), raw);
    lemma_read_u64(full, pos, len, k);
    if k >= pos + 8 {
        if k >= pos + 8 + raw.len() {
            lemma_cut(full, k, pos + 8, pos + 8 + raw.len());
            encode_utf8_valid_utf8(s);
            encode_utf8_decode_utf8(s);
        }
    }
}

proof fn lemma_read_opt_text(full: Seq<u8>, pos: int, o: Option<Seq<char>>, k: int)
    requires
        holds_at(full, pos, enc_opt_text(o)),
        o matches Some(s) ==> text_fits(s),
        pos <= k <= full.len(),
    ensures
        reads(parse_opt_text(full.take(k), pos), o, pos + enc_opt_text(o).len(), k),
{
    match o {
        None => {
            if k >= pos + 1 {
                assert(full.subrange(pos, pos + 1)[0] == seq![0u8][0]);
            }
        },
        Some(s) => {
            lemma_split(full, pos, seq![1u8], enc_text(s));
            if k >= pos + 1 {
                assert(full.subrange(pos, pos + 1)[0] == seq![1u8][0]);
                lemma_read_text(full, pos + 1, s, k);
            }
        },
    }
}

proof fn lemma_read_mapping(full: Seq<u8>, pos: int, m: MappingView, k: int)
    requires
        holds_at(full, pos, enc_mapping(m)),
        m.name matches Some(n) ==> text_fits(n),
        pos <= k <= full.len(),
    ensures
        reads(parse_mapping(full.take(k), pos), m, pos + enc_mapping(m).len(), k),
{
    let a = enc_opt_text(m.name);
    let b = enc_bool(m.readable);
    let c = enc_bool(m.writeable);
    let d = enc_bool(m.executable);
    let e = spec_u64_to_le_bytes(m.addr);
    let f = spec_u64_to_le_bytes(m.size);
    lemma_split(full, pos, a + b + c + d + e, f);
    lemma_split(full, pos, a + b + c + d, e);
    lemma_split(full, pos, a + b + c, d);
    lemma_split(full, pos, a + b, c);
    lemma_split(full, pos, a, b);
    lemma_auto_spec_u64_to_from_le_bytes();
    let p1 = pos + a.len();
    lemma_read_opt_text(full, pos, m.name, k);
    if k >= p1 {
        lemma_read_bool(full, p1, m.readable, k);
        if k >= p1 + 1 {
            lemma_read_bool(full, p1 + 1, m.writeable, k);
            if k >= p1 + 2 {
                lemma_read_bool(full, p1 + 2, m.executable, k);
                if k >= p1 + 3 {
                    lemma_read_u64(full, p1 + 3, m.addr, k);
                    if k >= p1 + 11 {
                        lemma_read_u64(full, p1 + 11, m.size, k);
                    }
                }
            }
        }
    }
}

proof fn lemma_read_connection(full: Seq<u8>, pos: int, c: ConnectionView, k: int)
    requires
        holds_at(full, pos, enc_connection(c)),
        connection_fits(c),
        pos <= k <= full.len(),
    ensures
        reads(parse_connection(full.take(k), pos), c, pos + enc_connection(c).len(), k),
{
    lemma_auto_spec_u32_to_from_le_bytes();
    match c {
        ConnectionView::Invalid => {
            lemma_read_u32(full, pos, TAG_INVALID, k);
        },
        ConnectionView::Stdio => {
            lemma_read_u32(full, pos, TAG_STDIO, k);
        },
        ConnectionView::Tcp { local_addr, remote_addr } => {
            let t = spec_u32_to_le_bytes(TAG_TCP);
            lemma_split(full, pos, t + enc_text(local_addr), enc_text(remote_addr));
            lemma_split(full, pos, t, enc_text(local_addr));
            lemma_read_u32(full, pos, TAG_TCP, k);
            if k >= pos + 4 {
                lemma_read_text(full, pos + 4, local_addr, k);
                let p1 = pos + 4 + enc_text(local_addr).len();
                if k >= p1 {
                    lemma_read_text(full, p1, remote_addr, k);
                }
            }
        },
        ConnectionView::File { path, offset } => {
            let t = spec_u32_to_le_bytes(TAG_FILE);
            lemma_split(full, pos, t + enc_text(path), spec_u64_to_le_bytes(offset));
            lemma_split(full, pos, t, enc_text(path));
            lemma_read_u32(full, pos, TAG_FILE, k);
            if k >= pos + 4 {
                lemma_read_text(full, pos + 4, path, k);
                let p1 = pos + 4 + enc_text(path).len();
                if k >= p1 {
                    lemma_read_u64(full, p1, offset, k);
                }
            }
        },
    }
}

/// The entries of a table on the channel start with the first entry.
proof fn lemma_entries_front(entries: Seq<(u32, ConnectionView)>)
    requires
        entries.len() > 0,
    ensures
        enc_entries(entries) == enc_entry(entries[0]) + enc_entries(entries.drop_first()),
    decreases entries.len(),
{
    if entries.len() == 1 {
        assert(entries.drop_last() =~= Seq::<(u32, ConnectionView)>::empty());
        assert(entries.drop_first() =~= Seq::<(u32, ConnectionView)>::empty());
        assert(enc_entries(entries) =~= enc_entry(entries[0]) + enc_entries(
            entries.drop_first(),
        ));
    } else {
        let init = entries.drop_last();
        lemma_entries_front(init);
        assert(init.drop_first() =~= entries.drop_first().drop_last());
        assert(init[0] == entries[0]);
        assert(entries.drop_first().last() == entries.last());
        assert(enc_entries(entries) =~= enc_entry(entries[0]) + enc_entries(
            entries.drop_first(),
        ));
    }
}

proof fn lemma_read_entries(
    full: Seq<u8>,
    pos: int,
    all: Seq<(u32, ConnectionView)>,
    done: int,
    k: int,
)
    requires
        unique_fds(all),
        entries_fit(all),
        0 <= done <= all.len(),
        holds_at(full, pos, enc_entries(all.skip(done))),
        pos <= k <= full.len(),
    ensures
        reads(
            parse_entries(full.take(k), pos, (all.len() - done) as nat, all.take(done)),
            all,
            pos + enc_entries(all.skip(done)).len(),
            k,
        ),
    decreases all.len() - done,
{
    let rest = all.skip(done);
    if done == all.len() {
        assert(all.take(done) =~= all);
        assert(enc_entries(rest) =~= Seq::<u8>::empty());
    } else {
        lemma_entries_front(rest);
        assert(rest[0] == all[done]);
        assert(rest.drop_first() =~= all.skip(done + 1));
        let fd = all[done].0;
        let c = all[done].1;
        let head = spec_u32_to_le_bytes(fd) + enc_connection(c);
        lemma_split(full, pos, head, enc_entries(all.skip(done + 1)));
        lemma_split(full, pos, spec_u32_to_le_bytes(fd), enc_connection(c));
        lemma_read_u32(full, pos, fd, k);
        if k >= pos + 4 {
            lemma_read_connection(full, pos + 4, c, k);
            let p2 = pos + 4 + enc_connection(c).len();
            if k >= p2 {
                lemma_insert_rebuilds(all, done);
                lemma_read_entries(full, p2, all, done + 1, k);
            }
        }
    }
}

/// Reading the first `k` bytes of what a command was written as, whatever
/// follows it on the channel: with all of the command there, the reading
/// gives the command and takes exactly its bytes; with less, it asks for
/// more, and for no more than the command still has.
pub proof fn lemma_decode_of_encode(c: CommandView, rest: Seq<u8>, k: int)
    requires
        representable(c),
        0 <= k <= spec_encode(c).len() + rest.len(),
    ensures
        reads(spec_decode((spec_encode(c) + rest).take(k)), c, spec_encode(c).len() as int, k),
{
    let full = spec_encode(c) + rest;
    assert(full.subrange(0, spec_encode(c).len() as int) =~= spec_encode(c));
    assert(holds_at(full, 0, spec_encode(c)));
    lemma_auto_spec_u32_to_from_le_bytes();
    match c {
        CommandView::ProcessState { brk_addr } => {
            lemma_split(full, 0, spec_u32_to_le_bytes(TAG_PROCESS_STATE), spec_u64_to_le_bytes(brk_addr));
            lemma_read_u32(full, 0, TAG_PROCESS_STATE, k);
            if k >= 4 {
                lemma_read_u64(full, 4, brk_addr, k);
            }
        },
        CommandView::Mapping(m) => {
            lemma_split(full, 0, spec_u32_to_le_bytes(TAG_MAPPING), enc_mapping(m));
            lemma_read_u32(full, 0, TAG_MAPPING, k);
            if k >= 4 {
                lemma_read_mapping(full, 4, m, k);
            }
        },
        CommandView::Remap { name, addr, size } => {
            let t = spec_u32_to_le_bytes(TAG_REMAP);
            lemma_split(full, 0, t + enc_text(name) + spec_u64_to_le_bytes(addr), spec_u64_to_le_bytes(size));
            lemma_split(full, 0, t + enc_text(name), spec_u64_to_le_bytes(addr));
            lemma_split(full, 0, t, enc_text(name));
            lemma_auto_spec_u64_to_from_le_bytes();
            lemma_read_u32(full, 0, TAG_REMAP, k);
            if k >= 4 {
                lemma_read_text(full, 4, name, k);
                let p1: int = 4int + enc_text(name).len();
                if k >= p1 {
                    lemma_read_u64(full, p1, addr, k);
                    if k >= p1 + 8 {
                        lemma_read_u64(full, p1 + 8, size, k);
                    }
                }
            }
        },
        CommandView::FileDescriptors(entries) => {
            let t = spec_u32_to_le_bytes(TAG_FILE_DESCRIPTORS);
            let n = spec_u64_to_le_bytes(entries.len() as u64);
            lemma_split(full, 0, t + n, enc_entries(entries));
            lemma_split(full, 0, t, n);
            lemma_read_u32(full, 0, TAG_FILE_DESCRIPTORS, k);
            if k >= 4 {
                lemma_read_u64(full, 4, entries.len() as u64, k);
                if k >= 12 {
                    assert(entries.skip(0) =~= entries);
                    assert(entries.take(0) =~= Seq::<(u32, ConnectionView)>::empty());
                    lemma_read_entries(full, 12, entries, 0, k);
                }
            }
        },
        CommandView::ResumeWithRegisters { len } => {
            lemma_split(full, 0, spec_u32_to_le_bytes(TAG_RESUME), spec_u64_to_le_bytes(len));
            lemma_read_u32(full, 0, TAG_RESUME, k);
            if k >= 4 {
                lemma_read_u64(full, 4, len, k);
            }
        },
    }
}

/// A command written to the channel is read back as the same command, and
/// the reading takes exactly the bytes that the writing gave, whatever
/// follows them.
pub proof fn lemma_round_trip(c: CommandView, rest: Seq<u8>)
    requires
        representable(c),
    ensures
        spec_decode(spec_encode(c) + rest) == (Parsed::Done {
            value: c,
            next: spec_encode(c).len() as int,
        }),
{
    let full = spec_encode(c) + rest;
    lemma_decode_of_encode(c, rest, full.len() as int);
    assert(full.take(full.len() as int) =~= full);
}

} // verus!
