//! The stream that describes a process, as a plan of what to send.
//!
//! The stream opens with the program break. The maps that the kernel manages
//! follow as directives to move them, all of them before the first ordinary
//! map, so that the acceptor can get them out of the way before an ordinary
//! map lands on them. Then each ordinary map with its contents, the table of
//! descriptors, and last the registers, announced by their length.
//!
//! The plan names the contents of a map by where they lie; the embedding
//! program reads them from the frozen process as it sends them.

use crate::accept::{admissible, EventView};
use crate::descriptors::{ConnectionMap, ConnectionView};
use crate::failure::TeleError;
use crate::maps::{
    is_special_kernel_map, should_skip_map, should_teleport_kernel_map_anyways, views, Mapping,
    MappingView,
};
use crate::registers::{Registers, REGISTERS_SIZE};
use crate::scan::{lemma_scan_is_sound, spec_scan, FoundView};
use crate::wire::{Command, CommandView, ProcessState};
use crate::PAGE_SIZE;
use vstd::prelude::*;

verus! {

/// One thing to send.
#[derive(Debug, PartialEq, Eq)]
pub enum StreamItem {
    /// A command, in its form on the channel.
    Command(Command),
    /// The contents of the region of `size` bytes at `addr`, as they are.
    Contents { addr: u64, size: u64 },
    /// The register bundle, in its form on the channel.
    Registers(Registers),
}

/// A thing to send as a mathematical value.
pub enum StreamItemView {
    Command(CommandView),
    Contents { addr: u64, size: u64 },
    Registers(Registers),
}

impl View for StreamItem {
    type V = StreamItemView;

    open spec fn view(&self) -> StreamItemView {
        match self {
            StreamItem::Command(c) => StreamItemView::Command(c@),
            StreamItem::Contents { addr, size } => StreamItemView::Contents {
                addr: *addr,
                size: *size,
            },
            StreamItem::Registers(r) => StreamItemView::Registers(*r),
        }
    }
}

/// The things of a vector as mathematical values.
pub open spec fn item_views(items: Seq<StreamItem>) -> Seq<StreamItemView> {
    items.map_values(|i: StreamItem| i@)
}

/// The directive that moves a map which the kernel manages.
pub open spec fn remap_of(m: MappingView) -> StreamItemView {
    StreamItemView::Command(
        CommandView::Remap { name: m.name.unwrap(), addr: m.addr, size: m.size },
    )
}

/// The command that announces an ordinary map.
pub open spec fn mapping_of(m: MappingView) -> StreamItemView {
    StreamItemView::Command(CommandView::Mapping(m))
}

/// The contents of an ordinary map.
pub open spec fn contents_of(m: MappingView) -> StreamItemView {
    StreamItemView::Contents { addr: m.addr, size: m.size }
}

/// The maps that are moved, in the order of the maps.
pub open spec fn remapped(maps: Seq<MappingView>) -> Seq<MappingView> {
    maps.filter(|m: MappingView| m.is_remapped())
}

/// The maps that travel with their contents, in the order of the maps.
pub open spec fn copied(maps: Seq<MappingView>) -> Seq<MappingView> {
    maps.filter(|m: MappingView| m.is_copied())
}

/// One directive for each map that is moved.
pub open spec fn spec_remaps(maps: Seq<MappingView>) -> Seq<StreamItemView> {
    remapped(maps).map_values(|m: MappingView| remap_of(m))
}

/// For each map that travels with its contents, its command and then its
/// contents.
pub open spec fn spec_copies(maps: Seq<MappingView>) -> Seq<StreamItemView> {
    Seq::new(
        2 * copied(maps).len(),
        |k: int|
            if k % 2 == 0 {
                mapping_of(copied(maps)[k / 2])
            } else {
                contents_of(copied(maps)[k / 2])
            },
    )
}

/// What closes a stream: the table of descriptors, the announcement of the
/// registers, and the registers.
pub open spec fn spec_tail(fds: Seq<(u32, ConnectionView)>, regs: Registers) -> Seq<
    StreamItemView,
> {
    seq![
        StreamItemView::Command(CommandView::FileDescriptors(fds)),
        StreamItemView::Command(CommandView::ResumeWithRegisters { len: REGISTERS_SIZE as u64 }),
        StreamItemView::Registers(regs),
    ]
}

/// The stream of a process with the given program break, maps, descriptors
/// and registers.
pub open spec fn spec_write_state(
    brk_addr: u64,
    maps: Seq<MappingView>,
    fds: Seq<(u32, ConnectionView)>,
    regs: Registers,
) -> Seq<StreamItemView> {
    seq![StreamItemView::Command(CommandView::ProcessState { brk_addr })] + spec_remaps(maps)
        + spec_copies(maps) + spec_tail(fds, regs)
}

/// Whether every map is a whole number of pages long, as the maps of a
/// process are.
pub open spec fn whole_pages(maps: Seq<MappingView>) -> bool {
    forall|i: int| 0 <= i < maps.len() ==> (#[trigger] maps[i]).size % PAGE_SIZE == 0
}

fn copy_name(name: &Option<String>) -> (r: Option<String>)
    ensures
        match (r, *name) {
            (Some(a), Some(b)) => a@ == b@,
            (None, None) => true,
            _ => false,
        },
{
    match name {
        Some(n) => Some(n.clone()),
        None => None,
    }
}

/// Adds to the plan the directive that moves a map which the kernel manages.
pub fn write_special_kernel_map(out: &mut Vec<StreamItem>, map: &Mapping)
    requires
        map@.name is Some,
    ensures
        item_views(final(out)@) == item_views(old(out)@).push(remap_of(map@)),
{
    if let Some(name) = copy_name(&map.name) {
        out.push(StreamItem::Command(Command::Remap { name, addr: map.addr, size: map.size }));
    }
    assert(item_views(out@) =~= item_views(old(out)@).push(remap_of(map@)));
}

/// Adds to the plan the command of an ordinary map, and then its contents.
pub fn write_regular_map(out: &mut Vec<StreamItem>, map: &Mapping)
    ensures
        item_views(final(out)@) == item_views(old(out)@).push(mapping_of(map@)).push(
            contents_of(map@),
        ),
{
    let mapping = Mapping {
        name: copy_name(&map.name),
        readable: map.readable,
        writeable: map.writeable,
        executable: map.executable,
        addr: map.addr,
        size: map.size,
    };
    assert(mapping@ == map@);
    out.push(StreamItem::Command(Command::Mapping(mapping)));
    out.push(StreamItem::Contents { addr: map.addr, size: map.size });
    assert(item_views(out@) =~= item_views(old(out)@).push(mapping_of(map@)).push(
        contents_of(map@),
    ));
}

/// Whether a stream announces only maps that are at least a page and a whole
/// number of pages long, each followed at once by its contents, as many
/// bytes as the command says.
pub open spec fn maps_are_well_announced(s: Seq<StreamItemView>) -> bool {
    forall|i: int|
        0 <= i < s.len() ==> (#[trigger] s[i] matches StreamItemView::Command(
            CommandView::Mapping(m),
        ) ==> {
            &&& m.size > 0
            &&& m.size % PAGE_SIZE == 0
            &&& i + 1 < s.len()
            &&& s[i + 1] == StreamItemView::Contents { addr: m.addr, size: m.size }
        })
}

/// Plans the stream of a process: the program break; a directive for each
/// map that the kernel manages; each ordinary map with its contents; the
/// descriptors; the registers. Maps that cannot be read and empty maps are
/// left out. A map that would travel with its contents but is no whole
/// number of pages long is no map of a process: no stream is planned then.
pub fn write_state(
    proc_state: ProcessState,
    maps: &Vec<Mapping>,
    fds: ConnectionMap,
    regs: Registers,
) -> (r: Result<Vec<StreamItem>, TeleError>)
    ensures
        match r {
            Ok(items) => {
                &&& whole_pages(copied(views(maps@)))
                &&& item_views(items@) == spec_write_state(
                    proc_state.brk_addr,
                    views(maps@),
                    fds@,
                    regs,
                )
                &&& maps_are_well_announced(item_views(items@))
            },
            Err(e) => e == TeleError::MmapUnaligned && !whole_pages(copied(views(maps@))),
        },
{
    let ghost all = views(maps@);
    let ghost head = seq![
        StreamItemView::Command(CommandView::ProcessState { brk_addr: proc_state.brk_addr }),
    ];
    let mut out: Vec<StreamItem> = Vec::new();
    out.push(StreamItem::Command(Command::ProcessState(proc_state)));
    proof {
        reveal(Seq::filter);
        assert(all.take(0) =~= Seq::<MappingView>::empty());
        assert(item_views(out@) =~= head + spec_remaps(all.take(0)));
    }
    let mut i: usize = 0;
    while i < maps.len()
        invariant
            i <= maps@.len(),
            all == views(maps@),
            item_views(out@) == head + spec_remaps(all.take(i as int)),
        decreases maps.len() - i,
    {
        let map = &maps[i];
        let special = !should_skip_map(map) && is_special_kernel_map(map)
            && !should_teleport_kernel_map_anyways(map);
        proof {
            reveal(Seq::filter);
            let before = all.take(i as int);
            let after = all.take(i + 1);
            assert(after.drop_last() =~= before);
            assert(after.last() == map@);
            if special {
                assert(remapped(after) == remapped(before).push(map@));
                assert(spec_remaps(after) =~= spec_remaps(before).push(remap_of(map@)));
            } else {
                assert(remapped(after) == remapped(before));
            }
        }
        if special {
            write_special_kernel_map(&mut out, map);
            assert(item_views(out@) =~= head + spec_remaps(all.take(i + 1)));
        }
        i += 1;
    }
    proof {
        reveal(Seq::filter);
        assert(all.take(i as int) =~= all);
        assert(item_views(out@) =~= head + spec_remaps(all) + spec_copies(all.take(0)));
    }
    let mut j: usize = 0;
    while j < maps.len()
        invariant
            j <= maps@.len(),
            all == views(maps@),
            item_views(out@) == head + spec_remaps(all) + spec_copies(all.take(j as int)),
            whole_pages(copied(all.take(j as int))),
        decreases maps.len() - j,
    {
        let map = &maps[j];
        let regular = !should_skip_map(map) && !(is_special_kernel_map(map)
            && !should_teleport_kernel_map_anyways(map));
        proof {
            reveal(Seq::filter);
            let before = all.take(j as int);
            let after = all.take(j + 1);
            assert(after.drop_last() =~= before);
            assert(after.last() == map@);
            if regular {
                assert(copied(after) == copied(before).push(map@));
                assert(spec_copies(after) =~= spec_copies(before).push(mapping_of(map@)).push(
                    contents_of(map@),
                ));
            } else {
                assert(copied(after) == copied(before));
            }
        }
        if regular && map.size % PAGE_SIZE != 0 {
            proof {
                assert(all[j as int] == map@);
                all.lemma_filter_contains(|m: MappingView| m.is_copied(), j as int);
                let k = choose|k: int| 0 <= k < copied(all).len() && copied(all)[k] == map@;
                assert(copied(all)[k].size % PAGE_SIZE != 0);
            }
            return Err(TeleError::MmapUnaligned);
        }
        if regular {
            write_regular_map(&mut out, map);
            assert(item_views(out@) =~= head + spec_remaps(all) + spec_copies(all.take(j + 1)));
        }
        j += 1;
    }
    assert(all.take(j as int) =~= all);
    let ghost body = out@;
    let ghost table = fds@;
    out.push(StreamItem::Command(Command::FileDescriptors(fds)));
    out.push(StreamItem::Command(Command::ResumeWithRegisters { len: REGISTERS_SIZE as u64 }));
    out.push(StreamItem::Registers(regs));
    assert(item_views(out@) =~= item_views(body) + spec_tail(table, regs));
    proof {
        lemma_contents_follow_mappings(proc_state.brk_addr, all, table, regs);
    }
    Ok(out)
}

/// A stream opens with the program break, and closes with the table of
/// descriptors, the announcement of the registers and the registers; none
/// of these stands anywhere else in it.
pub proof fn lemma_stream_is_framed(
    brk_addr: u64,
    maps: Seq<MappingView>,
    fds: Seq<(u32, ConnectionView)>,
    regs: Registers,
)
    ensures
        ({
            let s = spec_write_state(brk_addr, maps, fds, regs);
            let n = s.len();
            &&& n >= 4
            &&& s[0] == StreamItemView::Command(CommandView::ProcessState { brk_addr })
            &&& s[n - 3] == StreamItemView::Command(CommandView::FileDescriptors(fds))
            &&& s[n - 2] == StreamItemView::Command(
                CommandView::ResumeWithRegisters { len: 216 },
            )
            &&& s[n - 1] == StreamItemView::Registers(regs)
            &&& forall|i: int|
                0 <= i < n ==> match #[trigger] s[i] {
                    StreamItemView::Command(CommandView::ProcessState { .. }) => i == 0,
                    StreamItemView::Command(CommandView::FileDescriptors(_)) => i == n - 3,
                    StreamItemView::Command(CommandView::ResumeWithRegisters { .. }) => i == n
                        - 2,
                    StreamItemView::Registers(_) => i == n - 1,
                    _ => 0 < i < n - 3,
                }
        }),
{
    let s = spec_write_state(brk_addr, maps, fds, regs);
    let r = spec_remaps(maps).len() as int;
    let c = spec_copies(maps).len() as int;
    assert(s.len() == 1 + r + c + 3);
    assert forall|i: int| 0 <= i < s.len() implies match #[trigger] s[i] {
        StreamItemView::Command(CommandView::ProcessState { .. }) => i == 0,
        StreamItemView::Command(CommandView::FileDescriptors(_)) => i == s.len() - 3,
        StreamItemView::Command(CommandView::ResumeWithRegisters { .. }) => i == s.len() - 2,
        StreamItemView::Registers(_) => i == s.len() - 1,
        _ => 0 < i < s.len() - 3,
    } by {
        lemma_item_at(brk_addr, maps, fds, regs, i);
    }
    lemma_item_at(brk_addr, maps, fds, regs, 0);
    lemma_item_at(brk_addr, maps, fds, regs, s.len() - 3);
    lemma_item_at(brk_addr, maps, fds, regs, s.len() - 2);
    lemma_item_at(brk_addr, maps, fds, regs, s.len() - 1);
}

/// What stands at each place of a stream.
pub proof fn lemma_item_at(
    brk_addr: u64,
    maps: Seq<MappingView>,
    fds: Seq<(u32, ConnectionView)>,
    regs: Registers,
    i: int,
)
    requires
        0 <= i < spec_write_state(brk_addr, maps, fds, regs).len(),
    ensures
        ({
            let s = spec_write_state(brk_addr, maps, fds, regs);
            let r = remapped(maps).len() as int;
            let c = copied(maps).len() as int;
            &&& s.len() == 4 + r + 2 * c
            &&& i == 0 ==> s[i] == StreamItemView::Command(CommandView::ProcessState { brk_addr })
            &&& 1 <= i < 1 + r ==> s[i] == remap_of(remapped(maps)[i - 1])
                && remapped(maps)[i - 1].is_remapped()
            &&& 1 + r <= i < 1 + r + 2 * c ==> copied(maps)[(i - 1 - r) / 2].is_copied()
            &&& 1 + r <= i < 1 + r + 2 * c && (i - 1 - r) % 2 == 0 ==> s[i] == mapping_of(
                copied(maps)[(i - 1 - r) / 2],
            )
            &&& 1 + r <= i < 1 + r + 2 * c && (i - 1 - r) % 2 == 1 ==> s[i] == contents_of(
                copied(maps)[(i - 1 - r) / 2],
            )
            &&& i == 1 + r + 2 * c ==> s[i] == StreamItemView::Command(
                CommandView::FileDescriptors(fds),
            )
            &&& i == 2 + r + 2 * c ==> s[i] == StreamItemView::Command(
                CommandView::ResumeWithRegisters { len: 216 },
            )
            &&& i == 3 + r + 2 * c ==> s[i] == StreamItemView::Registers(regs)
        }),
{
    broadcast use vstd::seq_lib::group_filter_ensures;

    let r = remapped(maps).len() as int;
    let c = copied(maps).len() as int;
    if 1 <= i < 1 + r {
        assert(spec_remaps(maps)[i - 1] == remap_of(remapped(maps)[i - 1]));
    }
    if 1 + r <= i < 1 + r + 2 * c {
        let k = i - 1 - r;
        assert(0 <= k / 2 < c);
        assert(spec_copies(maps)[k] == if k % 2 == 0 {
            mapping_of(copied(maps)[k / 2])
        } else {
            contents_of(copied(maps)[k / 2])
        });
    }
}

/// Every directive in a stream names a map that the kernel manages.
pub proof fn lemma_remaps_name_kernel_maps(
    brk_addr: u64,
    maps: Seq<MappingView>,
    fds: Seq<(u32, ConnectionView)>,
    regs: Registers,
)
    ensures
        forall|i: int|
            0 <= i < spec_write_state(brk_addr, maps, fds, regs).len() ==> (
            #[trigger] spec_write_state(brk_addr, maps, fds, regs)[i] matches StreamItemView::Command(
                CommandView::Remap { name, .. },
            ) ==> name == "[vdso]"@ || name == "[vsyscall]"@ || name == "[vvar]"@),
{
    let s = spec_write_state(brk_addr, maps, fds, regs);
    assert forall|i: int| 0 <= i < s.len() implies (#[trigger] s[i] matches StreamItemView::Command(
        CommandView::Remap { name, .. },
    ) ==> name == "[vdso]"@ || name == "[vsyscall]"@ || name == "[vvar]"@) by {
        lemma_item_at(brk_addr, maps, fds, regs, i);
    }
}

/// Every map announced in a stream is followed at once by its contents, as
/// many bytes as the command says and at least one; where the maps that
/// travel with their contents are whole pages, as they are in every stream
/// that is planned, so is what is announced.
pub proof fn lemma_contents_follow_mappings(
    brk_addr: u64,
    maps: Seq<MappingView>,
    fds: Seq<(u32, ConnectionView)>,
    regs: Registers,
)
    ensures
        forall|i: int|
            0 <= i < spec_write_state(brk_addr, maps, fds, regs).len() ==> (
            #[trigger] spec_write_state(brk_addr, maps, fds, regs)[i] matches StreamItemView::Command(
                CommandView::Mapping(m),
            ) ==> {
                &&& i + 1 < spec_write_state(brk_addr, maps, fds, regs).len()
                &&& spec_write_state(brk_addr, maps, fds, regs)[i + 1]
                    == StreamItemView::Contents { addr: m.addr, size: m.size }
                &&& m.size > 0
                &&& whole_pages(copied(maps)) ==> m.size % PAGE_SIZE == 0
            }),
        forall|i: int|
            0 <= i < spec_write_state(brk_addr, maps, fds, regs).len() ==> (
            #[trigger] spec_write_state(brk_addr, maps, fds, regs)[i] matches StreamItemView::Contents {
                addr,
                size,
            } ==> {
                &&& i > 0
                &&& spec_write_state(brk_addr, maps, fds, regs)[i - 1] matches StreamItemView::Command(
                    CommandView::Mapping(m),
                ) && m.addr == addr && m.size == size
            }),
{
    broadcast use vstd::seq_lib::group_filter_ensures;

    let s = spec_write_state(brk_addr, maps, fds, regs);
    let r = remapped(maps).len() as int;
    assert forall|i: int| 0 <= i < s.len() implies (#[trigger] s[i] matches StreamItemView::Command(
        CommandView::Mapping(m),
    ) ==> {
        &&& i + 1 < s.len()
        &&& s[i + 1] == StreamItemView::Contents { addr: m.addr, size: m.size }
        &&& m.size > 0
        &&& whole_pages(copied(maps)) ==> m.size % PAGE_SIZE == 0
    }) by {
        lemma_item_at(brk_addr, maps, fds, regs, i);
        if s[i] is Command && s[i]->Command_0 is Mapping {
            lemma_item_at(brk_addr, maps, fds, regs, i + 1);
            let m = copied(maps)[(i - 1 - r) / 2];
            assert(copied(maps).contains(m));
        }
    }
    assert forall|i: int| 0 <= i < s.len() implies (#[trigger] s[i] matches StreamItemView::Contents {
        addr,
        size,
    } ==> {
        &&& i > 0
        &&& s[i - 1] matches StreamItemView::Command(CommandView::Mapping(m)) && m.addr == addr
            && m.size == size
    }) by {
        lemma_item_at(brk_addr, maps, fds, regs, i);
        if s[i] is Contents {
            lemma_item_at(brk_addr, maps, fds, regs, i - 1);
        }
    }
}

/// In a stream every directive to move a map comes before every ordinary
/// map and its contents.
pub proof fn lemma_remaps_come_first(
    brk_addr: u64,
    maps: Seq<MappingView>,
    fds: Seq<(u32, ConnectionView)>,
    regs: Registers,
    i: int,
    j: int,
)
    requires
        0 <= i < spec_write_state(brk_addr, maps, fds, regs).len(),
        0 <= j < spec_write_state(brk_addr, maps, fds, regs).len(),
        spec_write_state(brk_addr, maps, fds, regs)[i] matches StreamItemView::Command(
            CommandView::Remap { .. },
        ),
        spec_write_state(brk_addr, maps, fds, regs)[j] matches StreamItemView::Command(
            CommandView::Mapping(_),
        ) || spec_write_state(brk_addr, maps, fds, regs)[j] is Contents,
    ensures
        i < j,
{
    lemma_item_at(brk_addr, maps, fds, regs, i);
    lemma_item_at(brk_addr, maps, fds, regs, j);
}

/// Every command of the stream of a process whose descriptors were scanned
/// may be handed to an acceptor.
pub proof fn lemma_stream_is_admissible(
    brk_addr: u64,
    maps: Seq<MappingView>,
    found: Seq<FoundView>,
    regs: Registers,
)
    requires
        spec_scan(found) is Ok,
    ensures
        forall|i: int|
            0 <= i < spec_write_state(brk_addr, maps, spec_scan(found)->Ok_0, regs).len() ==> (
            #[trigger] spec_write_state(
                brk_addr,
                maps,
                spec_scan(found)->Ok_0,
                regs,
            )[i] matches StreamItemView::Command(c) ==> admissible(EventView::Command(c))),
{
    let table = spec_scan(found)->Ok_0;
    let s = spec_write_state(brk_addr, maps, table, regs);
    lemma_scan_is_sound(found);
    assert forall|i: int| 0 <= i < s.len() implies (#[trigger] s[i] matches StreamItemView::Command(
        c,
    ) ==> admissible(EventView::Command(c))) by {
        lemma_item_at(brk_addr, maps, table, regs, i);
    }
}

} // verus!
