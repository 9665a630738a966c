//! The acceptor: rebuilding a donor inside a victim, one step at a time.
//!
//! The acceptor is a state machine. It asks the embedding program for one
//! thing at a time (make the victim perform a call, fetch the next command,
//! copy bytes into the victim) and is told how that went; from its state and
//! that answer it decides what to ask next. It makes the victim unmap all
//! that it has but what the kernel manages, then follows the commands of the
//! stream until the one that sets the registers, which ends the restore.

use crate::descriptors::{stdio_in_range, Connection, ConnectionMap, ConnectionView};
use crate::failure::TeleError;
use crate::maps::{find_map_named, first_named, hollow, spec_hollow, views, Mapping, MappingView};
use crate::registers::{lemma_registers_round_trip, Registers, REGISTERS_SIZE};
use crate::syscall::{
    first_syscall, spec_wake_value, try_to_find_syscall, wake_value, RemoteCall, SyscallLoc,
    O_RDONLY, PROT_ALL,
};
use crate::wire::{Command, CommandView};
use crate::PAGE_SIZE;
use vstd::prelude::*;
use vstd::slice::slice_to_vec;
use vstd::string::*;
use vstd::utf8::*;

verus! {

/// Something worth telling the user that does not stop the restore.
#[derive(Debug, Clone, Copy, PartialEq, Eq, Structural)]
pub enum Warning {
    /// The victim has no map of the name that a directive wants moved; the
    /// directive is passed over.
    NoMatchingMap,
    /// The victim's map of that name has another size than the donor's; it
    /// is moved all the same.
    SizeMismatch,
    /// The descriptor of that number cannot be restored.
    InvalidDescriptor(u32),
    /// The descriptor of that number is a socket; it is not reopened.
    SocketSkipped(u32),
}

/// What the acceptor is waiting for.
#[derive(Debug, Clone, Copy, PartialEq, Eq, Structural)]
pub enum Phase {
    /// For the result of the unmap call of that index in the plan.
    Hollowing { next: usize },
    /// For the maps that the victim is left with.
    Rescanning,
    /// For the next command.
    Idle,
    /// For the program break as it is, to move it to `target` then.
    BrkQuery { target: u64 },
    /// For the program break as it became; it was `orig`.
    BrkSet { orig: u64 },
    /// For the unmapping of what moving the break added.
    BrkTrim,
    /// For the move of a map to `addr`; `vdso` says whether it is the vDSO.
    Remapping { addr: u64, vdso: bool },
    /// For the fresh region that `size` bytes of contents go to.
    MapAlloc { size: u64 },
    /// For the contents to be in place.
    MapFill,
    /// For the scratch page that takes the path of the descriptor at `index`.
    FdScratch { index: usize },
    /// For the path to be in place.
    FdPoke { index: usize, path_addr: u64 },
    /// For the file to be open.
    FdOpen { index: usize, path_addr: u64 },
    /// For the scratch page to be gone.
    FdRelease { index: usize, open_fd: u32 },
    /// For the descriptor to have its number.
    FdDup { index: usize },
    /// For the descriptor to have its offset.
    FdSeek { index: usize },
    /// For the register bundle.
    Payload { len: u64 },
    /// For nothing: the registers are set.
    Finished,
    /// For nothing: the restore failed.
    Failed,
}

/// What the acceptor asks the embedding program to do.
#[derive(Debug, PartialEq, Eq)]
pub enum Action {
    /// Read the next command from the channel; answer with it.
    NextCommand,
    /// Read the maps of the victim; answer with them.
    Rescan,
    /// Make the victim perform `call` with the system call instruction at
    /// `loc`; answer with the accumulator.
    Call { call: RemoteCall, loc: SyscallLoc },
    /// Copy `length` bytes from the channel to `addr` in the victim; answer
    /// when done.
    Fill { addr: u64, length: u64 },
    /// Write `bytes` to `addr` in the victim; answer when done.
    Poke { addr: u64, bytes: Vec<u8> },
    /// Read `len` bytes from the channel; answer with them.
    ReadPayload { len: u64 },
    /// Set the registers of the victim and let it go. Nothing is to be
    /// answered.
    Resume { regs: Registers },
}

/// A request as a mathematical value.
pub enum ActionView {
    NextCommand,
    Rescan,
    Call { call: RemoteCall, loc: SyscallLoc },
    Fill { addr: u64, length: u64 },
    Poke { addr: u64, bytes: Seq<u8> },
    ReadPayload { len: u64 },
    Resume { regs: Registers },
}

impl View for Action {
    type V = ActionView;

    open spec fn view(&self) -> ActionView {
        match self {
            Action::NextCommand => ActionView::NextCommand,
            Action::Rescan => ActionView::Rescan,
            Action::Call { call, loc } => ActionView::Call { call: *call, loc: *loc },
            Action::Fill { addr, length } => ActionView::Fill { addr: *addr, length: *length },
            Action::Poke { addr, bytes } => ActionView::Poke { addr: *addr, bytes: bytes@ },
            Action::ReadPayload { len } => ActionView::ReadPayload { len: *len },
            Action::Resume { regs } => ActionView::Resume { regs: *regs },
        }
    }
}

/// What the acceptor answers: warnings to pass on, and what to do next.
#[derive(Debug, PartialEq, Eq)]
pub struct Reaction {
    pub warnings: Vec<Warning>,
    pub action: Action,
}

/// An answer of the acceptor as a mathematical value.
pub struct ReactionView {
    pub warnings: Seq<Warning>,
    pub action: ActionView,
}

impl View for Reaction {
    type V = ReactionView;

    open spec fn view(&self) -> ReactionView {
        ReactionView { warnings: self.warnings@, action: self.action@ }
    }
}

/// What the embedding program tells the acceptor.
#[derive(Debug, PartialEq, Eq)]
pub enum Event {
    /// The maps of the victim.
    Maps(Vec<Mapping>),
    /// The next command of the stream.
    Command(Command),
    /// The accumulator after the call.
    Rax(u64),
    /// The bytes are in place.
    Done,
    /// The bytes read from the channel.
    Payload(Vec<u8>),
}

/// What the acceptor is told, as a mathematical value.
pub enum EventView {
    Maps(Seq<MappingView>),
    Command(CommandView),
    Rax(u64),
    Done,
    Payload(Seq<u8>),
}

impl View for Event {
    type V = EventView;

    open spec fn view(&self) -> EventView {
        match self {
            Event::Maps(maps) => EventView::Maps(views(maps@)),
            Event::Command(c) => EventView::Command(c@),
            Event::Rax(rax) => EventView::Rax(*rax),
            Event::Done => EventView::Done,
            Event::Payload(bytes) => EventView::Payload(bytes@),
        }
    }
}

/// The state of an acceptor as a mathematical value.
pub struct AcceptorView {
    /// What the acceptor is waiting for.
    pub phase: Phase,
    /// The call whose result is awaited.
    pub pending: Option<RemoteCall>,
    /// Where the victim has a system call instruction.
    pub loc: SyscallLoc,
    /// How far into the vDSO that instruction sits.
    pub offset: u64,
    /// The maps of the victim, as last read.
    pub maps: Seq<MappingView>,
    /// The unmap calls that hollow the victim out.
    pub plan: Seq<RemoteCall>,
    /// The descriptors being reopened.
    pub table: Seq<(u32, ConnectionView)>,
    /// What the restored process is handed when it wakes.
    pub pass_to_child: i32,
    /// The warnings that a step gave rise to before it failed.
    pub unreported: Seq<Warning>,
}

/// A step of the acceptor: the state it comes to, and its answer.
pub struct Outcome {
    pub state: AcceptorView,
    pub result: Result<ReactionView, TeleError>,
}

/// The restore fails.
pub open spec fn fail(s: AcceptorView, error: TeleError) -> Outcome {
    Outcome { state: AcceptorView { phase: Phase::Failed, ..s }, result: Err(error) }
}

/// The acceptor asks for the next command.
pub open spec fn next_command(s: AcceptorView, warnings: Seq<Warning>) -> Outcome {
    Outcome {
        state: AcceptorView { phase: Phase::Idle, pending: None, ..s },
        result: Ok(ReactionView { warnings, action: ActionView::NextCommand }),
    }
}

/// The acceptor asks for a call, at the place where the victim has its
/// system call instruction.
pub open spec fn ask_call(s: AcceptorView, phase: Phase, call: RemoteCall, warnings: Seq<Warning>)
    -> Outcome {
    Outcome {
        state: AcceptorView { phase, pending: Some(call), ..s },
        result: Ok(ReactionView { warnings, action: ActionView::Call { call, loc: s.loc } }),
    }
}

/// The acceptor asks for something other than a call.
pub open spec fn ask(s: AcceptorView, phase: Phase, action: ActionView) -> Outcome {
    Outcome {
        state: AcceptorView { phase, pending: None, ..s },
        result: Ok(ReactionView { warnings: Seq::empty(), action }),
    }
}

/// The warning that a descriptor gives rise to when it is passed over.
pub open spec fn warning_of(entry: (u32, ConnectionView)) -> Seq<Warning> {
    match entry.1 {
        ConnectionView::Invalid => seq![Warning::InvalidDescriptor(entry.0)],
        ConnectionView::Tcp { .. } => seq![Warning::SocketSkipped(entry.0)],
        _ => Seq::empty(),
    }
}

/// The index of the first file at or after `i`; the length of the table
/// where there is none.
pub open spec fn first_file_from(table: Seq<(u32, ConnectionView)>, i: int) -> int
    decreases table.len() - i,
{
    if i >= table.len() {
        table.len() as int
    } else if table[i].1 is File {
        i
    } else {
        first_file_from(table, i + 1)
    }
}

/// The warnings that the descriptors from `i` up to `j` give rise to.
pub open spec fn warnings_between(table: Seq<(u32, ConnectionView)>, i: int, j: int) -> Seq<
    Warning,
>
    decreases j - i,
{
    if j <= i {
        Seq::empty()
    } else {
        warnings_between(table, i, j - 1) + warning_of(table[j - 1])
    }
}

/// The acceptor turns to the first file at or after `i` in its table: it
/// asks for a scratch page to put the path in. Sockets and descriptors that
/// cannot be restored are passed over with a warning, standard descriptors
/// without one. With no file left it asks for the next command. A path
/// longer than a page is a failure; the warnings for what was passed over on
/// the way to that file are then kept in the state.
pub open spec fn restore_from(s: AcceptorView, i: int) -> Outcome {
    let j = first_file_from(s.table, i);
    let warnings = warnings_between(s.table, i, j);
    if j >= s.table.len() {
        next_command(s, warnings)
    } else if s.table[j].1 matches ConnectionView::File { path, .. } && encode_utf8(path).len()
        > PAGE_SIZE {
        fail(AcceptorView { unreported: warnings, ..s }, TeleError::PathTooLong)
    } else {
        ask_call(
            s,
            Phase::FdScratch { index: j as usize },
            RemoteCall::MmapAnon { at: None, length: PAGE_SIZE, prot: PROT_ALL },
            warnings,
        )
    }
}

/// The acceptor notes where the system call instruction is once the vDSO
/// stands at `addr`, and asks for the next command.
pub open spec fn relocate(s: AcceptorView, addr: u64, warnings: Seq<Warning>) -> Outcome {
    if addr + s.offset > u64::MAX {
        fail(s, TeleError::RegionOverflow)
    } else {
        next_command(AcceptorView { loc: SyscallLoc((addr + s.offset) as u64), ..s }, warnings)
    }
}

/// What the acceptor does with a command.
///
/// For the program break it first asks where the break is. For a directive
/// to move a map it looks for the victim's map of that name: without one it
/// warns and goes on; with one, it warns if the sizes differ, and asks for
/// the move unless the map is where it should be. For a map it asks for a
/// fresh region at the map's address, readable, writable and executable. For
/// the descriptors it turns to the first file. For the registers it asks for
/// the bundle.
pub open spec fn on_command(s: AcceptorView, c: CommandView) -> Outcome {
    match c {
        CommandView::ProcessState { brk_addr } => ask_call(
            s,
            Phase::BrkQuery { target: brk_addr },
            RemoteCall::Brk { addr: 0 },
            Seq::empty(),
        ),
        CommandView::Remap { name, addr, size } => {
            let i = first_named(s.maps, name);
            if i >= s.maps.len() {
                next_command(s, seq![Warning::NoMatchingMap])
            } else {
                let found = s.maps[i];
                let vdso = name == "[vdso]"@;
                let warnings = if size != found.size {
                    seq![Warning::SizeMismatch]
                } else {
                    Seq::empty()
                };
                if found.addr == addr {
                    if vdso {
                        relocate(s, addr, warnings)
                    } else {
                        next_command(s, warnings)
                    }
                } else {
                    ask_call(
                        s,
                        Phase::Remapping { addr, vdso },
                        RemoteCall::Mremap { addr: found.addr, length: found.size, new_addr: addr },
                        warnings,
                    )
                }
            }
        },
        CommandView::Mapping(m) => {
            if m.size % PAGE_SIZE != 0 {
                fail(s, TeleError::MmapUnaligned)
            } else {
                ask_call(
                    s,
                    Phase::MapAlloc { size: m.size },
                    RemoteCall::MmapAnon { at: Some(m.addr), length: m.size, prot: PROT_ALL },
                    Seq::empty(),
                )
            }
        },
        CommandView::FileDescriptors(table) => restore_from(AcceptorView { table, ..s }, 0),
        CommandView::ResumeWithRegisters { len } => ask(
            s,
            Phase::Payload { len },
            ActionView::ReadPayload { len },
        ),
    }
}

/// The file at `index` of the table, if there is one: its number, its path
/// and its offset.
pub open spec fn file_at(table: Seq<(u32, ConnectionView)>, index: int) -> Option<
    (u32, Seq<char>, u64),
> {
    if 0 <= index < table.len() {
        match table[index].1 {
            ConnectionView::File { path, offset } => Some((table[index].0, path, offset)),
            _ => None,
        }
    } else {
        None
    }
}

/// What the acceptor does with the value that a call yielded.
///
/// Hollowing goes on to the next unmap call, and after the last to reading
/// the maps. The program break, once known, is moved; if it then lies above
/// where it was, what it grew by is unmapped. A moved vDSO moves the system
/// call instruction with it. A fresh region is filled with the contents
/// that follow on the channel. A file is reopened by putting its path on
/// the scratch page, opening it, unmapping the page, giving the descriptor
/// its number and moving it to its offset; then the next file has its turn.
pub open spec fn on_value(s: AcceptorView, value: u64) -> Outcome {
    match s.phase {
        Phase::Hollowing { next } => {
            if next + 1 < s.plan.len() {
                ask_call(
                    s,
                    Phase::Hollowing { next: (next + 1) as usize },
                    s.plan[next + 1],
                    Seq::empty(),
                )
            } else {
                ask(s, Phase::Rescanning, ActionView::Rescan)
            }
        },
        Phase::BrkQuery { target } => ask_call(
            s,
            Phase::BrkSet { orig: value },
            RemoteCall::Brk { addr: target },
            Seq::empty(),
        ),
        Phase::BrkSet { orig } => {
            if value > orig {
                ask_call(
                    s,
                    Phase::BrkTrim,
                    RemoteCall::Munmap { addr: orig, length: (value - orig) as u64 },
                    Seq::empty(),
                )
            } else {
                next_command(s, Seq::empty())
            }
        },
        Phase::BrkTrim => next_command(s, Seq::empty()),
        Phase::Remapping { addr, vdso } => {
            if vdso {
                relocate(s, addr, Seq::empty())
            } else {
                next_command(s, Seq::empty())
            }
        },
        Phase::MapAlloc { size } => {
            if value + size > u64::MAX {
                fail(s, TeleError::RegionOverflow)
            } else {
                ask(s, Phase::MapFill, ActionView::Fill { addr: value, length: size })
            }
        },
        Phase::FdScratch { index } => match file_at(s.table, index as int) {
            Some((_, path, _)) => ask(
                s,
                Phase::FdPoke { index, path_addr: value },
                ActionView::Poke { addr: value, bytes: encode_utf8(path) },
            ),
            None => fail(s, TeleError::UnexpectedEvent),
        },
        Phase::FdOpen { index, path_addr } => match file_at(s.table, index as int) {
            Some((_, path, _)) => {
                if value > u32::MAX {
                    fail(s, TeleError::UnexpectedEvent)
                } else {
                    ask_call(
                        s,
                        Phase::FdRelease { index, open_fd: value as u32 },
                        RemoteCall::Munmap {
                            addr: path_addr,
                            length: encode_utf8(path).len() as u64,
                        },
                        Seq::empty(),
                    )
                }
            },
            None => fail(s, TeleError::UnexpectedEvent),
        },
        Phase::FdRelease { index, open_fd } => match file_at(s.table, index as int) {
            Some((fd, _, _)) => ask_call(
                s,
                Phase::FdDup { index },
                RemoteCall::Dup2 { oldfd: open_fd, newfd: fd },
                Seq::empty(),
            ),
            None => fail(s, TeleError::UnexpectedEvent),
        },
        Phase::FdDup { index } => match file_at(s.table, index as int) {
            Some((fd, _, offset)) => ask_call(
                s,
                Phase::FdSeek { index },
                RemoteCall::Lseek { fd, offset },
                Seq::empty(),
            ),
            None => fail(s, TeleError::UnexpectedEvent),
        },
        Phase::FdSeek { index } => {
            if index < s.table.len() {
                restore_from(s, index + 1)
            } else {
                fail(s, TeleError::UnexpectedEvent)
            }
        },
        _ => fail(s, TeleError::UnexpectedEvent),
    }
}

/// What the acceptor does with the register bundle: the bundle must be as
/// long as the command said and hold all registers; the process wakes with
/// these, but for the accumulator, which holds what it is handed.
pub open spec fn on_payload(s: AcceptorView, len: u64, bytes: Seq<u8>) -> Outcome {
    if bytes.len() != len {
        fail(s, TeleError::Truncated)
    } else if bytes.len() < REGISTERS_SIZE {
        fail(s, TeleError::BadRegisters)
    } else {
        ask(
            s,
            Phase::Finished,
            ActionView::Resume {
                regs: Registers {
                    rax: spec_wake_value(s.pass_to_child),
                    ..Registers::spec_from_bytes(bytes)
                },
            },
        )
    }
}

/// One step of the acceptor: from its state and what it is told to the
/// state it comes to and what it asks next. The result of a call is judged
/// by the call first; a call that did not do what was asked ends the
/// restore. Whatever the acceptor is told that it did not ask for ends the
/// restore too.
pub open spec fn spec_step(s: AcceptorView, e: EventView) -> Outcome {
    match e {
        EventView::Rax(rax) => match s.pending {
            Some(call) => match call.spec_outcome(rax) {
                Ok(value) => on_value(s, value),
                Err(error) => fail(s, error),
            },
            None => fail(s, TeleError::UnexpectedEvent),
        },
        EventView::Maps(maps) => {
            if s.phase is Rescanning {
                next_command(AcceptorView { maps, ..s }, Seq::empty())
            } else {
                fail(s, TeleError::UnexpectedEvent)
            }
        },
        EventView::Command(c) => {
            if s.phase is Idle {
                on_command(s, c)
            } else {
                fail(s, TeleError::UnexpectedEvent)
            }
        },
        EventView::Done => match s.phase {
            Phase::MapFill => next_command(s, Seq::empty()),
            Phase::FdPoke { index, path_addr } => ask_call(
                s,
                Phase::FdOpen { index, path_addr },
                RemoteCall::Open { path_addr, flags: O_RDONLY },
                Seq::empty(),
            ),
            _ => fail(s, TeleError::UnexpectedEvent),
        },
        EventView::Payload(bytes) => match s.phase {
            Phase::Payload { len } => on_payload(s, len, bytes),
            _ => fail(s, TeleError::UnexpectedEvent),
        },
    }
}

/// Whether a command may be handed to the acceptor: a table of descriptors
/// has its standard descriptors at numbers up to 2.
pub open spec fn admissible(e: EventView) -> bool {
    e matches EventView::Command(CommandView::FileDescriptors(table)) ==> stdio_in_range(table)
}

/// How an acceptor starts on a victim with the given maps, of which `page`
/// is the first page of the vDSO: it finds a system call instruction in the
/// page, plans the hollowing, and asks for the first unmap call, or for the
/// maps if there is nothing to unmap. A victim without a vDSO, or with no
/// system call instruction in that page, cannot be restored into.
pub open spec fn spec_new(maps: Seq<MappingView>, page: Seq<u8>, pass_to_child: i32) -> Result<
    (AcceptorView, ActionView),
    TeleError,
> {
    let i = first_named(maps, "[vdso]"@);
    if i >= maps.len() {
        Err(TeleError::MapNotFound)
    } else if first_syscall(page) >= page.len() {
        Err(TeleError::SyscallNotFound)
    } else {
        let offset = first_syscall(page);
        if maps[i].addr + offset > u64::MAX {
            Err(TeleError::RegionOverflow)
        } else {
            let loc = SyscallLoc((maps[i].addr + offset) as u64);
            let plan = spec_hollow(maps);
            let s = AcceptorView {
                phase: Phase::Rescanning,
                pending: None,
                loc,
                offset: offset as u64,
                maps,
                plan,
                table: Seq::empty(),
                pass_to_child,
                unreported: Seq::empty(),
            };
            if plan.len() == 0 {
                Ok((s, ActionView::Rescan))
            } else {
                Ok(
                    (
                        AcceptorView {
                            phase: Phase::Hollowing { next: 0 },
                            pending: Some(plan[0]),
                            ..s
                        },
                        ActionView::Call { call: plan[0], loc },
                    ),
                )
            }
        }
    }
}

/// A step as the acceptor made it.
pub open spec fn produced(state: AcceptorView, r: Result<Reaction, TeleError>) -> Outcome {
    Outcome {
        state,
        result: match r {
            Ok(reaction) => Ok(reaction@),
            Err(error) => Err(error),
        },
    }
}

/// An acceptor that awaits a register bundle and is handed one in the form
/// in which bundles are sent wakes the victim with these registers, but for
/// the accumulator, which holds what the acceptor was told to hand over.
pub proof fn lemma_sent_registers_wake_the_victim(s: AcceptorView, regs: Registers)
    requires
        s.phase == (Phase::Payload { len: 216 }),
    ensures
        spec_step(s, EventView::Payload(regs.spec_to_bytes())) == ask(
            s,
            Phase::Finished,
            ActionView::Resume {
                regs: Registers { rax: spec_wake_value(s.pass_to_child), ..regs },
            },
        ),
{
    lemma_registers_round_trip(regs, Seq::empty());
    assert(regs.spec_to_bytes() + Seq::<u8>::empty() =~= regs.spec_to_bytes());
}

/// One call is in flight at a time: the acceptor awaits the result of a call
/// exactly when it has just asked for that call, and it asks for it at the
/// place where it knew the system call instruction to be.
pub proof fn lemma_one_call_in_flight(s: AcceptorView, e: EventView)
    ensures
        spec_step(s, e).result matches Ok(reaction) ==> match reaction.action {
            ActionView::Call { call, loc } => spec_step(s, e).state.pending == Some(call) && loc
                == s.loc,
            _ => spec_step(s, e).state.pending is None,
        },
{
}

/// A restore that has failed stays failed, and one that has let the victim
/// go takes nothing more: whatever the acceptor is told then is a failure.
pub proof fn lemma_end_is_final(s: AcceptorView, e: EventView)
    requires
        s.phase is Failed || s.phase is Finished,
    ensures
        spec_step(s, e).result is Err,
        spec_step(s, e).state.phase is Failed,
{
}

/// The state of an acceptor after `k` calls in a row have returned 0.
pub open spec fn after_granted(s: AcceptorView, k: nat) -> AcceptorView
    decreases k,
{
    if k == 0 {
        s
    } else {
        spec_step(after_granted(s, (k - 1) as nat), EventView::Rax(0)).state
    }
}

/// An acceptor hollows its victim out by the plan: it asks for the unmap
/// calls of the plan one by one, in order, each once the one before it has
/// succeeded, and after the last of them for the maps that are left.
pub proof fn lemma_hollowing_follows_the_plan(
    maps: Seq<MappingView>,
    page: Seq<u8>,
    pass_to_child: i32,
    k: nat,
)
    requires
        maps.len() <= usize::MAX,
        spec_new(maps, page, pass_to_child) is Ok,
        k < spec_hollow(maps).len(),
    ensures
        ({
            let plan = spec_hollow(maps);
            let start = spec_new(maps, page, pass_to_child)->Ok_0;
            let before = after_granted(start.0, k);
            let step = spec_step(before, EventView::Rax(0));
            &&& start.1 == ActionView::Call { call: plan[0], loc: start.0.loc }
            &&& before.phase == Phase::Hollowing { next: k as usize }
            &&& before.pending == Some(plan[k as int])
            &&& before.loc == start.0.loc
            &&& before.plan == plan
            &&& step.result == Ok::<ReactionView, TeleError>(
                ReactionView {
                    warnings: Seq::empty(),
                    action: if k + 1 < plan.len() {
                        ActionView::Call { call: plan[k as int + 1], loc: start.0.loc }
                    } else {
                        ActionView::Rescan
                    },
                },
            )
            &&& k + 1 == plan.len() ==> step.state.phase is Rescanning
        }),
    decreases k,
{
    broadcast use vstd::seq_lib::group_filter_ensures;

    let plan = spec_hollow(maps);
    assert(plan[k as int] is Munmap);
    if k > 0 {
        lemma_hollowing_follows_the_plan(maps, page, pass_to_child, (k - 1) as nat);
        assert(plan[k - 1] is Munmap);
    }
}

/// The acceptor of one restore.
#[derive(Debug)]
pub struct Acceptor {
    phase: Phase,
    pending: Option<RemoteCall>,
    loc: SyscallLoc,
    offset: u64,
    maps: Vec<Mapping>,
    plan: Vec<RemoteCall>,
    table: ConnectionMap,
    pass_to_child: i32,
    unreported: Vec<Warning>,
}

impl View for Acceptor {
    type V = AcceptorView;

    closed spec fn view(&self) -> AcceptorView {
        AcceptorView {
            phase: self.phase,
            pending: self.pending,
            loc: self.loc,
            offset: self.offset,
            maps: views(self.maps@),
            plan: self.plan@,
            table: self.table@,
            pass_to_child: self.pass_to_child,
            unreported: self.unreported@,
        }
    }
}

impl Acceptor {
    /// Starts a restore into a victim with the given maps; `vdso_page` is
    /// the first page of the victim's vDSO, and `pass_to_child` what the
    /// restored process is to be handed. Gives the acceptor and what it asks
    /// for first.
    pub fn new(maps: Vec<Mapping>, vdso_page: &[u8], pass_to_child: i32) -> (r: Result<
        (Acceptor, Action),
        TeleError,
    >)
        ensures
            match r {
                Ok((acceptor, action)) => spec_new(views(maps@), vdso_page@, pass_to_child) == Ok::<
                    (AcceptorView, ActionView),
                    TeleError,
                >((acceptor@, action@)),
                Err(error) => spec_new(views(maps@), vdso_page@, pass_to_child) == Err::<
                    (AcceptorView, ActionView),
                    TeleError,
                >(error),
            },
    {
        let i = match find_map_named(&maps, "[vdso]") {
            Some(i) => i,
            None => {
                return Err(TeleError::MapNotFound);
            },
        };
        let offset = match try_to_find_syscall(vdso_page) {
            Ok(offset) => offset,
            Err(error) => {
                return Err(error);
            },
        };
        assert(views(maps@)[i as int] == maps@[i as int]@);
        let loc = match SyscallLoc::at(maps[i].addr, offset) {
            Some(loc) => loc,
            None => {
                return Err(TeleError::RegionOverflow);
            },
        };
        let plan = hollow(&maps);
        if plan.len() == 0 {
            let acceptor = Acceptor {
                phase: Phase::Rescanning,
                pending: None,
                loc,
                offset: offset as u64,
                maps,
                plan,
                table: ConnectionMap::new(),
                pass_to_child,
                unreported: Vec::new(),
            };
            Ok((acceptor, Action::Rescan))
        } else {
            let first = plan[0];
            let acceptor = Acceptor {
                phase: Phase::Hollowing { next: 0 },
                pending: Some(first),
                loc,
                offset: offset as u64,
                maps,
                plan,
                table: ConnectionMap::new(),
                pass_to_child,
                unreported: Vec::new(),
            };
            Ok((acceptor, Action::Call { call: first, loc }))
        }
    }

    /// What the acceptor is waiting for.
    pub fn phase(&self) -> (phase: Phase)
        ensures
            phase == self@.phase,
    {
        self.phase
    }

    /// Where the victim has a system call instruction.
    pub fn syscall_loc(&self) -> (loc: SyscallLoc)
        ensures
            loc == self@.loc,
    {
        self.loc
    }

    /// The warnings that the step which failed had gathered before it
    /// failed: a failure carries no warnings, so they are kept here.
    pub fn unreported(&self) -> (warnings: &Vec<Warning>)
        ensures
            warnings@ == self@.unreported,
    {
        &self.unreported
    }

    /// Whether the registers are set and the restore is over.
    pub fn is_finished(&self) -> (done: bool)
        ensures
            done == (self@.phase is Finished),
    {
        match self.phase {
            Phase::Finished => true,
            _ => false,
        }
    }

    fn fail(&mut self, error: TeleError) -> (r: Result<Reaction, TeleError>)
        ensures
            produced(final(self)@, r) == fail(old(self)@, error),
    {
        self.phase = Phase::Failed;
        Err(error)
    }

    fn next_command(&mut self, warnings: Vec<Warning>) -> (r: Result<Reaction, TeleError>)
        ensures
            produced(final(self)@, r) == next_command(old(self)@, warnings@),
    {
        self.phase = Phase::Idle;
        self.pending = None;
        Ok(Reaction { warnings, action: Action::NextCommand })
    }

    fn ask_call(&mut self, phase: Phase, call: RemoteCall, warnings: Vec<Warning>) -> (r: Result<
        Reaction,
        TeleError,
    >)
        ensures
            produced(final(self)@, r) == ask_call(old(self)@, phase, call, warnings@),
    {
        self.phase = phase;
        self.pending = Some(call);
        Ok(Reaction { warnings, action: Action::Call { call, loc: self.loc } })
    }

    fn ask(&mut self, phase: Phase, action: Action) -> (r: Result<Reaction, TeleError>)
        ensures
            produced(final(self)@, r) == ask(old(self)@, phase, action@),
    {
        self.phase = phase;
        self.pending = None;
        Ok(Reaction { warnings: Vec::new(), action })
    }

    fn relocate(&mut self, addr: u64, warnings: Vec<Warning>) -> (r: Result<Reaction, TeleError>)
        ensures
            produced(final(self)@, r) == relocate(old(self)@, addr, warnings@),
    {
        if self.offset > u64::MAX - addr {
            self.fail(TeleError::RegionOverflow)
        } else {
            self.loc = SyscallLoc(addr + self.offset);
            self.next_command(warnings)
        }
    }

    /// The number, the length of the path in bytes and the offset of the
    /// file at `index`.
    fn file_info(&self, index: usize) -> (r: Option<(u32, usize, u64)>)
        ensures
            match r {
                Some((fd, n, offset)) => file_at(self@.table, index as int) matches Some(
                    (f, path, o),
                ) && f == fd && encode_utf8(path).len() == n && o == offset,
                None => file_at(self@.table, index as int) is None,
            },
    {
        if index < self.table.len() {
            match self.table.connection_at(index) {
                Connection::File(f) => Some(
                    (self.table.fd_at(index), f.path.as_str().as_bytes().len(), f.offset),
                ),
                _ => None,
            }
        } else {
            None
        }
    }

    /// The path of the file at `index`, as bytes.
    fn file_path(&self, index: usize) -> (r: Option<Vec<u8>>)
        ensures
            match r {
                Some(bytes) => file_at(self@.table, index as int) matches Some((_, path, _))
                    && bytes@ == encode_utf8(path),
                None => file_at(self@.table, index as int) is None,
            },
    {
        if index < self.table.len() {
            match self.table.connection_at(index) {
                Connection::File(f) => Some(slice_to_vec(f.path.as_str().as_bytes())),
                _ => None,
            }
        } else {
            None
        }
    }

    fn restore_from(&mut self, start: usize) -> (r: Result<Reaction, TeleError>)
        requires
            start <= old(self)@.table.len(),
        ensures
            produced(final(self)@, r) == restore_from(old(self)@, start as int),
    {
        let ghost table = self@.table;
        let n = self.table.len();
        let mut warnings: Vec<Warning> = Vec::new();
        let mut j = start;
        let mut found = false;
        while j < n && !found
            invariant
                start <= j <= n,
                n == table.len(),
                self@ == old(self)@,
                table == self@.table,
                warnings@ == warnings_between(table, start as int, j as int),
                first_file_from(table, start as int) == if found {
                    j as int
                } else {
                    first_file_from(table, j as int)
                },
                found ==> j < n && table[j as int].1 is File,
            decreases n - j, if found { 0int } else { 1int },
        {
            let fd = self.table.fd_at(j);
            match self.table.connection_at(j) {
                Connection::File(_) => {
                    found = true;
                },
                Connection::Invalid => {
                    warnings.push(Warning::InvalidDescriptor(fd));
                    assert(warnings@ =~= warnings_between(table, start as int, j + 1));
                    j += 1;
                },
                Connection::Tcp(_) => {
                    warnings.push(Warning::SocketSkipped(fd));
                    assert(warnings@ =~= warnings_between(table, start as int, j + 1));
                    j += 1;
                },
                Connection::Stdio(_) => {
                    assert(warnings@ =~= warnings_between(table, start as int, j + 1));
                    j += 1;
                },
            }
        }
        if !found {
            return self.next_command(warnings);
        }
        match self.file_info(j) {
            Some((_, len, _)) => {
                if len as u64 > PAGE_SIZE {
                    self.unreported = warnings;
                    self.fail(TeleError::PathTooLong)
                } else {
                    self.ask_call(
                        Phase::FdScratch { index: j },
                        RemoteCall::MmapAnon { at: None, length: PAGE_SIZE, prot: PROT_ALL },
                        warnings,
                    )
                }
            },
            None => self.fail(TeleError::UnexpectedEvent),
        }
    }

    fn on_command(&mut self, command: Command) -> (r: Result<Reaction, TeleError>)
        ensures
            produced(final(self)@, r) == on_command(old(self)@, command@),
    {
        match command {
            Command::ProcessState(p) => self.ask_call(
                Phase::BrkQuery { target: p.brk_addr },
                RemoteCall::Brk { addr: 0 },
                Vec::new(),
            ),
            Command::Remap { name, addr, size } => {
                let mut warnings: Vec<Warning> = Vec::new();
                match find_map_named(&self.maps, name.as_str()) {
                    None => {
                        warnings.push(Warning::NoMatchingMap);
                        assert(warnings@ =~= seq![Warning::NoMatchingMap]);
                        self.next_command(warnings)
                    },
                    Some(i) => {
                        assert(views(self.maps@)[i as int] == self.maps@[i as int]@);
                        let found_addr = self.maps[i].addr;
                        let found_size = self.maps[i].size;
                        let vdso = crate::text::str_eq(name.as_str(), "[vdso]");
                        if size != found_size {
                            warnings.push(Warning::SizeMismatch);
                            assert(warnings@ =~= seq![Warning::SizeMismatch]);
                        }
                        if found_addr == addr {
                            if vdso {
                                self.relocate(addr, warnings)
                            } else {
                                self.next_command(warnings)
                            }
                        } else {
                            self.ask_call(
                                Phase::Remapping { addr, vdso },
                                RemoteCall::Mremap {
                                    addr: found_addr,
                                    length: found_size,
                                    new_addr: addr,
                                },
                                warnings,
                            )
                        }
                    },
                }
            },
            Command::Mapping(m) => {
                if m.size % PAGE_SIZE != 0 {
                    self.fail(TeleError::MmapUnaligned)
                } else {
                    self.ask_call(
                        Phase::MapAlloc { size: m.size },
                        RemoteCall::MmapAnon { at: Some(m.addr), length: m.size, prot: PROT_ALL },
                        Vec::new(),
                    )
                }
            },
            Command::FileDescriptors(table) => {
                self.table = table;
                self.restore_from(0)
            },
            Command::ResumeWithRegisters { len } => self.ask(
                Phase::Payload { len },
                Action::ReadPayload { len },
            ),
        }
    }

    fn on_value(&mut self, value: u64) -> (r: Result<Reaction, TeleError>)
        ensures
            produced(final(self)@, r) == on_value(old(self)@, value),
    {
        match self.phase {
            Phase::Hollowing { next } => {
                let planned = self.plan.len();
                if next < usize::MAX && next + 1 < planned {
                    let call = self.plan[next + 1];
                    self.ask_call(Phase::Hollowing { next: next + 1 }, call, Vec::new())
                } else {
                    self.ask(Phase::Rescanning, Action::Rescan)
                }
            },
            Phase::BrkQuery { target } => self.ask_call(
                Phase::BrkSet { orig: value },
                RemoteCall::Brk { addr: target },
                Vec::new(),
            ),
            Phase::BrkSet { orig } => {
                if value > orig {
                    self.ask_call(
                        Phase::BrkTrim,
                        RemoteCall::Munmap { addr: orig, length: value - orig },
                        Vec::new(),
                    )
                } else {
                    self.next_command(Vec::new())
                }
            },
            Phase::BrkTrim => self.next_command(Vec::new()),
            Phase::Remapping { addr, vdso } => {
                if vdso {
                    self.relocate(addr, Vec::new())
                } else {
                    self.next_command(Vec::new())
                }
            },
            Phase::MapAlloc { size } => {
                if size > u64::MAX - value {
                    self.fail(TeleError::RegionOverflow)
                } else {
                    self.ask(Phase::MapFill, Action::Fill { addr: value, length: size })
                }
            },
            Phase::FdScratch { index } => match self.file_path(index) {
                Some(bytes) => self.ask(
                    Phase::FdPoke { index, path_addr: value },
                    Action::Poke { addr: value, bytes },
                ),
                None => self.fail(TeleError::UnexpectedEvent),
            },
            Phase::FdOpen { index, path_addr } => match self.file_info(index) {
                Some((_, len, _)) => {
                    if value > u32::MAX as u64 {
                        self.fail(TeleError::UnexpectedEvent)
                    } else {
                        self.ask_call(
                            Phase::FdRelease { index, open_fd: value as u32 },
                            RemoteCall::Munmap { addr: path_addr, length: len as u64 },
                            Vec::new(),
                        )
                    }
                },
                None => self.fail(TeleError::UnexpectedEvent),
            },
            Phase::FdRelease { index, open_fd } => match self.file_info(index) {
                Some((fd, _, _)) => self.ask_call(
                    Phase::FdDup { index },
                    RemoteCall::Dup2 { oldfd: open_fd, newfd: fd },
                    Vec::new(),
                ),
                None => self.fail(TeleError::UnexpectedEvent),
            },
            Phase::FdDup { index } => match self.file_info(index) {
                Some((fd, _, offset)) => self.ask_call(
                    Phase::FdSeek { index },
                    RemoteCall::Lseek { fd, offset },
                    Vec::new(),
                ),
                None => self.fail(TeleError::UnexpectedEvent),
            },
            Phase::FdSeek { index } => {
                if index < self.table.len() {
                    self.restore_from(index + 1)
                } else {
                    self.fail(TeleError::UnexpectedEvent)
                }
            },
            _ => self.fail(TeleError::UnexpectedEvent),
        }
    }

    fn on_payload(&mut self, len: u64, bytes: Vec<u8>) -> (r: Result<Reaction, TeleError>)
        ensures
            produced(final(self)@, r) == on_payload(old(self)@, len, bytes@),
    {
        if bytes.len() as u64 != len {
            return self.fail(TeleError::Truncated);
        }
        match Registers::from_bytes(bytes.as_slice()) {
            None => self.fail(TeleError::BadRegisters),
            Some(read) => {
                let mut regs = read;
                regs.rax = wake_value(self.pass_to_child);
                self.ask(Phase::Finished, Action::Resume { regs })
            },
        }
    }

    /// Takes the acceptor one step on: tells it how what it asked for went,
    /// and learns what it asks next. After a failure, and once it has asked
    /// to let the victim go, the acceptor asks for nothing more.
    ///
    /// A table of descriptors with a standard descriptor above number 2 is
    /// not to be handed in: test it with
    /// [`ConnectionMap::has_stdio_in_range`] first.
    pub fn step(&mut self, event: Event) -> (r: Result<Reaction, TeleError>)
        requires
            admissible(event@),
        ensures
            produced(final(self)@, r) == spec_step(old(self)@, event@),
    {
        match event {
            Event::Rax(rax) => match self.pending {
                Some(call) => match call.outcome(rax) {
                    Ok(value) => self.on_value(value),
                    Err(error) => self.fail(error),
                },
                None => self.fail(TeleError::UnexpectedEvent),
            },
            Event::Maps(maps) => match self.phase {
                Phase::Rescanning => {
                    self.maps = maps;
                    self.next_command(Vec::new())
                },
                _ => self.fail(TeleError::UnexpectedEvent),
            },
            Event::Command(command) => match self.phase {
                Phase::Idle => self.on_command(command),
                _ => self.fail(TeleError::UnexpectedEvent),
            },
            Event::Done => match self.phase {
                Phase::MapFill => self.next_command(Vec::new()),
                Phase::FdPoke { index, path_addr } => self.ask_call(
                    Phase::FdOpen { index, path_addr },
                    RemoteCall::Open { path_addr, flags: O_RDONLY },
                    Vec::new(),
                ),
                _ => self.fail(TeleError::UnexpectedEvent),
            },
            Event::Payload(bytes) => match self.phase {
                Phase::Payload { len } => self.on_payload(len, bytes),
                _ => self.fail(TeleError::UnexpectedEvent),
            },
        }
    }
}

} // verus!
