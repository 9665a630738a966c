//! Moving the contents of a region between a process and the channel.
//!
//! A region moves one page at a time: each transfer covers the bytes that
//! follow those already moved, and at most a page of them. A transfer that
//! moves fewer bytes than it was asked to is a failure.

use crate::failure::TeleError;
use crate::PAGE_SIZE;
use vstd::prelude::*;

verus! {

/// A piece of a region, to be moved in one transfer.
#[derive(Debug, Clone, Copy, PartialEq, Eq, Structural)]
pub struct Chunk {
    /// The address of the first byte in the process.
    pub addr: u64,
    /// The number of bytes, at least 1 and at most a page.
    pub len: u64,
}

/// The piece of the region of `length` bytes at `addr` that comes after
/// `done` bytes have moved; none once the whole region has moved.
pub open spec fn chunk_after(addr: u64, length: u64, done: u64) -> Option<Chunk> {
    if done >= length {
        None
    } else {
        Some(
            Chunk {
                addr: (addr + done) as u64,
                len: if length - done < PAGE_SIZE {
                    (length - done) as u64
                } else {
                    PAGE_SIZE
                },
            },
        )
    }
}

/// The pieces in which the rest of a region moves, in order.
pub open spec fn chunks_after(addr: u64, length: u64, done: u64) -> Seq<Chunk>
    decreases length - done,
{
    match chunk_after(addr, length, done) {
        None => Seq::empty(),
        Some(c) => seq![c] + chunks_after(addr, length, (done + c.len) as u64),
    }
}

/// The number of bytes that a sequence of pieces covers.
pub open spec fn total_len(chunks: Seq<Chunk>) -> int
    decreases chunks.len(),
{
    if chunks.len() == 0 {
        0
    } else {
        chunks[0].len + total_len(chunks.drop_first())
    }
}

/// Whether each piece starts where the piece before it ends, the first of
/// them at `start`.
pub open spec fn contiguous_from(chunks: Seq<Chunk>, start: int) -> bool
    decreases chunks.len(),
{
    chunks.len() > 0 ==> chunks[0].addr == start && contiguous_from(
        chunks.drop_first(),
        start + chunks[0].len,
    )
}

/// The pieces of a region lie end to end from where the moving stands, none
/// is empty or longer than a page, and together they cover exactly what is
/// left of the region.
pub proof fn lemma_chunks_tile_region(addr: u64, length: u64, done: u64)
    requires
        done <= length,
        addr + length <= u64::MAX,
    ensures
        total_len(chunks_after(addr, length, done)) == length - done,
        contiguous_from(chunks_after(addr, length, done), addr + done),
        forall|i: int|
            0 <= i < chunks_after(addr, length, done).len() ==> 0 < (#[trigger] chunks_after(
                addr,
                length,
                done,
            )[i]).len <= PAGE_SIZE,
    decreases length - done,
{
    match chunk_after(addr, length, done) {
        None => {},
        Some(c) => {
            let next = (done + c.len) as u64;
            lemma_chunks_tile_region(addr, length, next);
            let rest = chunks_after(addr, length, next);
            let all = chunks_after(addr, length, done);
            assert(all.drop_first() =~= rest);
            assert forall|i: int| 0 <= i < all.len() implies 0 < (#[trigger] all[i]).len
                <= PAGE_SIZE by {
                if i > 0 {
                    assert(all[i] == rest[i - 1]);
                }
            }
        },
    }
}

/// The moving of one region, piece by piece.
#[derive(Debug, Clone, Copy, PartialEq, Eq)]
pub struct Transfer {
    addr: u64,
    length: u64,
    done: u64,
}

impl Transfer {
    #[verifier::type_invariant]
    spec fn wf(self) -> bool {
        self.done <= self.length && self.addr + self.length <= u64::MAX
    }

    /// The address of the region.
    pub closed spec fn spec_addr(self) -> u64 {
        self.addr
    }

    /// The length of the region.
    pub closed spec fn spec_length(self) -> u64 {
        self.length
    }

    /// The number of bytes that the pieces handed out so far cover.
    pub closed spec fn spec_done(self) -> u64 {
        self.done
    }

    /// Starts the moving of the region of `length` bytes at `addr`. A region
    /// that would reach past the last address is refused.
    pub fn new(addr: u64, length: u64) -> (r: Result<Transfer, TeleError>)
        ensures
            match r {
                Ok(t) => addr + length <= u64::MAX && t.spec_addr() == addr && t.spec_length()
                    == length && t.spec_done() == 0,
                Err(e) => addr + length > u64::MAX && e == TeleError::RegionOverflow,
            },
    {
        if length > u64::MAX - addr {
            Err(TeleError::RegionOverflow)
        } else {
            Ok(Transfer { addr, length, done: 0 })
        }
    }

    /// The address of the region.
    pub fn addr(&self) -> (a: u64)
        ensures
            a == self.spec_addr(),
    {
        self.addr
    }

    /// The length of the region.
    pub fn length(&self) -> (n: u64)
        ensures
            n == self.spec_length(),
    {
        self.length
    }

    /// The number of bytes still to be handed out.
    pub fn remaining(&self) -> (n: u64)
        ensures
            n == self.spec_length() - self.spec_done(),
            self.spec_addr() + self.spec_length() <= u64::MAX,
    {
        proof {
            use_type_invariant(self);
        }
        self.length - self.done
    }

    /// Hands out the next piece to move, and counts it as moved; none once
    /// the whole region has been handed out.
    pub fn next_chunk(&mut self) -> (r: Option<Chunk>)
        ensures
            r == chunk_after(old(self).spec_addr(), old(self).spec_length(), old(self).spec_done()),
            final(self).spec_addr() == old(self).spec_addr(),
            final(self).spec_length() == old(self).spec_length(),
            final(self).spec_done() == old(self).spec_done() + match r {
                Some(c) => c.len,
                None => 0,
            },
            final(self).spec_done() <= old(self).spec_length(),
            old(self).spec_addr() + old(self).spec_length() <= u64::MAX,
    {
        proof {
            use_type_invariant(&*self);
        }
        if self.done >= self.length {
            return None;
        }
        let left = self.length - self.done;
        let len = if left < PAGE_SIZE {
            left
        } else {
            PAGE_SIZE
        };
        let chunk = Chunk { addr: self.addr + self.done, len };
        self.done = self.done + len;
        Some(chunk)
    }
}

/// Judges a transfer by the number of bytes that it moved: anything but the
/// number asked for is a failure.
pub fn transfer_outcome(asked: u64, moved: u64) -> (r: Result<(), TeleError>)
    ensures
        moved == asked ==> r is Ok,
        moved != asked ==> r == Err::<(), TeleError>(TeleError::ShortTransfer),
{
    if moved == asked {
        Ok(())
    } else {
        Err(TeleError::ShortTransfer)
    }
}

} // verus!
