//! Checkpoint and restore of a Linux process on x86-64, as a verified core.
//!
//! A donor process is described by an ordered stream of commands; an acceptor
//! rebuilds the donor inside a freshly forked victim by making the victim run
//! system calls on its behalf. This crate holds every decision of that
//! protocol: the wire format of the commands, the classification of memory
//! maps and descriptors, the registers of each remote system call and the
//! judgement of its result, and the state machine of the acceptor. The
//! embedding program performs the tracing, the memory transfers and the
//! channel I/O that those decisions ask for.

use vstd::prelude::*;

pub mod accept;
pub mod decode;
pub mod descriptors;
pub mod emit;
pub mod failure;
pub mod fdinfo;
pub mod framing;
pub mod maps;
pub mod memory;
pub mod registers;
pub mod scan;
pub mod syscall;
pub mod text;
pub mod wait;
pub mod wire;

verus! {

/// The size of a page of memory on the machines this crate is meant for.
pub const PAGE_SIZE: u64 = 4096;

/// Where a caller of the suspension primitive finds itself on return.
#[derive(Debug, Clone, Copy, PartialEq, Eq, Structural)]
pub enum TeleforkLocation {
    /// The process that emitted the stream.
    Parent,
    /// The process rebuilt from the stream; the number is what the acceptor
    /// chose to hand over, for instance a descriptor to talk back on.
    Child(i32),
}

/// A marker that does nothing; a place to put a breakpoint.
pub fn buggsy() {
}

} // verus!
