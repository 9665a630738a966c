//! The memory maps of a process and what becomes of each.
//!
//! A map that the kernel manages (the vDSO, the vsyscall page, the vvar page)
//! is never copied: the acceptor moves its own copy to where the donor had it.
//! A map that cannot be read, or that is empty, is passed over. Every other
//! map travels with its contents.

use crate::syscall::{RemoteCall, PROT_EXEC, PROT_READ, PROT_WRITE};
use crate::text::str_eq;
use vstd::prelude::*;

verus! {

/// Whether the vDSO travels with its contents like an ordinary map instead of
/// being moved. Off: contents of one kernel's vDSO are of no use under
/// another.
pub const JANKY_VDSO_TELEPORT: bool = false;

/// A region of a process's address space with uniform permissions.
#[derive(Debug, Clone, PartialEq, Eq)]
pub struct Mapping {
    /// What backs the region: a path, a tag such as `[heap]`, or nothing.
    pub name: Option<String>,
    pub readable: bool,
    pub writeable: bool,
    pub executable: bool,
    /// The address of the first byte.
    pub addr: u64,
    /// The length in bytes.
    pub size: u64,
}

/// A map as a mathematical value.
pub struct MappingView {
    pub name: Option<Seq<char>>,
    pub readable: bool,
    pub writeable: bool,
    pub executable: bool,
    pub addr: u64,
    pub size: u64,
}

impl View for Mapping {
    type V = MappingView;

    open spec fn view(&self) -> MappingView {
        MappingView {
            name: match self.name {
                Some(n) => Some(n@),
                None => None,
            },
            readable: self.readable,
            writeable: self.writeable,
            executable: self.executable,
            addr: self.addr,
            size: self.size,
        }
    }
}

/// The maps of a vector as mathematical values.
pub open spec fn views(maps: Seq<Mapping>) -> Seq<MappingView> {
    maps.map_values(|m: Mapping| m@)
}

/// Whether a name is that of a map that the kernel manages.
pub open spec fn is_special_name(name: Seq<char>) -> bool {
    name == "[vdso]"@ || name == "[vsyscall]"@ || name == "[vvar]"@
}

impl MappingView {
    /// Whether the map bears the given name.
    pub open spec fn is_named(self, name: Seq<char>) -> bool {
        self.name == Some(name)
    }

    /// Whether the kernel manages the map.
    pub open spec fn is_special(self) -> bool {
        self.name matches Some(n) && is_special_name(n)
    }

    /// Whether the map is passed over when a process is written out.
    pub open spec fn is_skipped(self) -> bool {
        !self.readable || self.size == 0
    }

    /// Whether the map, though the kernel manages it, travels with its
    /// contents.
    pub open spec fn is_teleported_anyway(self) -> bool {
        JANKY_VDSO_TELEPORT && self.is_named("[vdso]"@)
    }

    /// Whether the map is written out as a directive to move the acceptor's
    /// own copy.
    pub open spec fn is_remapped(self) -> bool {
        !self.is_skipped() && self.is_special() && !self.is_teleported_anyway()
    }

    /// Whether the map is written out with its contents.
    pub open spec fn is_copied(self) -> bool {
        !self.is_skipped() && !(self.is_special() && !self.is_teleported_anyway())
    }

    /// Whether the map stays in a victim that is hollowed out.
    pub open spec fn survives_hollowing(self) -> bool {
        self.is_special() || self.size == 0
    }

    /// The permissions of the map as the bits that `mmap` takes.
    pub open spec fn prot(self) -> u64 {
        ((if self.readable {
            PROT_READ
        } else {
            0
        }) + (if self.writeable {
            PROT_WRITE
        } else {
            0
        }) + (if self.executable {
            PROT_EXEC
        } else {
            0
        })) as u64
    }
}

impl Mapping {
    /// Whether the map bears the given name.
    pub fn is_named(&self, name: &str) -> (r: bool)
        ensures
            r == self@.is_named(name@),
    {
        match &self.name {
            Some(n) => str_eq(n.as_str(), name),
            None => false,
        }
    }

    /// The permissions of the map as the bits that `mmap` takes.
    pub fn prot(&self) -> (bits: u64)
        ensures
            bits == self@.prot(),
    {
        let mut bits: u64 = 0;
        if self.readable {
            bits += PROT_READ;
        }
        if self.writeable {
            bits += PROT_WRITE;
        }
        if self.executable {
            bits += PROT_EXEC;
        }
        bits
    }
}

/// Whether the kernel manages the map: it is the vDSO, the vsyscall page or
/// the vvar page.
pub fn is_special_kernel_map(map: &Mapping) -> (r: bool)
    ensures
        r == map@.is_special(),
{
    map.is_named("[vdso]") || map.is_named("[vsyscall]") || map.is_named("[vvar]")
}

/// Whether the map travels with its contents although the kernel manages it.
pub fn should_teleport_kernel_map_anyways(map: &Mapping) -> (r: bool)
    ensures
        r == map@.is_teleported_anyway(),
{
    if !JANKY_VDSO_TELEPORT {
        return false;
    }
    map.is_named("[vdso]")
}

/// Whether the map is passed over: it cannot be read, or it is empty.
pub fn should_skip_map(map: &Mapping) -> (r: bool)
    ensures
        r == map@.is_skipped(),
{
    !map.readable || map.size == 0
}

/// The index of the first map that bears the given name; the number of maps
/// where none does.
pub open spec fn first_named(maps: Seq<MappingView>, name: Seq<char>) -> int
    decreases maps.len(),
{
    if maps.len() == 0 {
        0
    } else if maps[0].is_named(name) {
        0
    } else {
        1 + first_named(maps.drop_first(), name)
    }
}

/// What [`first_named`] finds: a map of that name with none of that name
/// before it, or the end.
pub proof fn lemma_first_named(maps: Seq<MappingView>, name: Seq<char>)
    ensures
        0 <= first_named(maps, name) <= maps.len(),
        first_named(maps, name) < maps.len() ==> maps[first_named(maps, name)].is_named(name),
        forall|j: int| 0 <= j < first_named(maps, name) ==> !(#[trigger] maps[j]).is_named(name),
    decreases maps.len(),
{
    if maps.len() > 0 && !maps[0].is_named(name) {
        let rest = maps.drop_first();
        lemma_first_named(rest, name);
        assert forall|j: int| 0 <= j < first_named(maps, name) implies !(#[trigger] maps[j]).is_named(
            name,
        ) by {
            if j > 0 {
                assert(maps[j] == rest[j - 1]);
            }
        }
    }
}

/// The index of the first map that bears the given name.
pub fn find_map_named(maps: &Vec<Mapping>, name: &str) -> (r: Option<usize>)
    ensures
        match r {
            Some(i) => i < maps@.len() && i == first_named(views(maps@), name@)
                && maps@[i as int]@.is_named(name@),
            None => first_named(views(maps@), name@) == maps@.len(),
        },
{
    proof {
        lemma_first_named(views(maps@), name@);
    }
    let mut i: usize = 0;
    while i < maps.len()
        invariant
            i <= maps@.len(),
            forall|j: int| 0 <= j < i ==> !(#[trigger] views(maps@)[j]).is_named(name@),
            0 <= first_named(views(maps@), name@) <= maps@.len(),
            first_named(views(maps@), name@) < maps@.len() ==> views(maps@)[first_named(
                views(maps@),
                name@,
            )].is_named(name@),
            forall|j: int|
                0 <= j < first_named(views(maps@), name@) ==> !(#[trigger] views(
                    maps@,
                )[j]).is_named(name@),
        decreases maps.len() - i,
    {
        if maps[i].is_named(name) {
            assert(views(maps@)[i as int] == maps@[i as int]@);
            return Some(i);
        }
        assert(views(maps@)[i as int] == maps@[i as int]@);
        i += 1;
    }
    None
}

/// The call that unmaps a map.
pub open spec fn unmap_call(m: MappingView) -> RemoteCall {
    RemoteCall::Munmap { addr: m.addr, length: m.size }
}

/// The calls that hollow out a victim with the given maps: one unmap for
/// each map that is neither managed by the kernel nor empty, in the order of
/// the maps.
pub open spec fn spec_hollow(maps: Seq<MappingView>) -> Seq<RemoteCall> {
    maps.filter(|m: MappingView| !m.survives_hollowing()).map_values(
        |m: MappingView| unmap_call(m),
    )
}

/// The maps that are left once the calls of [`spec_hollow`] are made.
pub open spec fn spec_survivors(maps: Seq<MappingView>) -> Seq<MappingView> {
    maps.filter(|m: MappingView| m.survives_hollowing())
}

/// Plans the hollowing of a victim: the unmap calls to make, in order.
pub fn hollow(maps: &Vec<Mapping>) -> (calls: Vec<RemoteCall>)
    ensures
        calls@ == spec_hollow(views(maps@)),
{
    let mut calls: Vec<RemoteCall> = Vec::new();
    let mut i: usize = 0;
    proof {
        reveal(Seq::filter);
        assert(views(maps@).take(0) =~= Seq::<MappingView>::empty());
        assert(spec_hollow(views(maps@).take(0)) =~= Seq::<RemoteCall>::empty());
    }
    while i < maps.len()
        invariant
            i <= maps@.len(),
            calls@ == spec_hollow(views(maps@).take(i as int)),
        decreases maps.len() - i,
    {
        let map = &maps[i];
        let keep = is_special_kernel_map(map) || map.size == 0;
        proof {
            reveal(Seq::filter);
            let before = views(maps@).take(i as int);
            let after = views(maps@).take(i + 1);
            assert(after.drop_last() =~= before);
            assert(after.last() == map@);
            let pred = |m: MappingView| !m.survives_hollowing();
            if keep {
                assert(after.filter(pred) == before.filter(pred));
            } else {
                assert(after.filter(pred) == before.filter(pred).push(map@));
                assert(spec_hollow(after) =~= spec_hollow(before).push(unmap_call(map@)));
            }
        }
        if !keep {
            calls.push(RemoteCall::Munmap { addr: map.addr, length: map.size });
        }
        i += 1;
    }
    assert(views(maps@).take(i as int) =~= views(maps@));
    calls
}

/// After the hollowing, the victim holds only maps that the kernel manages
/// and empty entries, and every such map it held before.
pub proof fn lemma_hollowing_leaves_kernel_maps(maps: Seq<MappingView>)
    ensures
        forall|i: int|
            0 <= i < spec_survivors(maps).len() ==> {
                let m = #[trigger] spec_survivors(maps)[i];
                m.is_special() || m.size == 0
            },
        forall|i: int|
            0 <= i < maps.len() && (maps[i].is_special() || maps[i].size == 0)
                ==> spec_survivors(maps).contains(#[trigger] maps[i]),
        spec_hollow(maps).len() + spec_survivors(maps).len() == maps.len(),
{
    broadcast use vstd::seq_lib::group_filter_ensures;

    let keep = |m: MappingView| m.survives_hollowing();
    let go = |m: MappingView| !m.survives_hollowing();
    lemma_filter_split(maps, keep, go);
}

/// A sequence splits between a predicate and its opposite.
proof fn lemma_filter_split<A>(s: Seq<A>, p: spec_fn(A) -> bool, q: spec_fn(A) -> bool)
    requires
        forall|a: A| #[trigger] q(a) == !p(a),
    ensures
        s.filter(p).len() + s.filter(q).len() == s.len(),
    decreases s.len(),
{
    reveal(Seq::filter);
    if s.len() > 0 {
        lemma_filter_split(s.drop_last(), p, q);
    }
}

/// Hollowing a victim that is already hollow asks for no call.
pub proof fn lemma_hollowing_is_idempotent(maps: Seq<MappingView>)
    ensures
        spec_hollow(spec_survivors(maps)) == Seq::<RemoteCall>::empty(),
        spec_survivors(spec_survivors(maps)) == spec_survivors(maps),
{
    broadcast use vstd::seq_lib::group_filter_ensures;

    let keep = |m: MappingView| m.survives_hollowing();
    let go = |m: MappingView| !m.survives_hollowing();
    let left = maps.filter(keep);
    lemma_filter_all(left, keep);
    lemma_filter_none(left, go);
    assert(spec_hollow(left) =~= Seq::<RemoteCall>::empty());
}

/// Filtering by what holds of every item changes nothing.
proof fn lemma_filter_all<A>(s: Seq<A>, p: spec_fn(A) -> bool)
    requires
        forall|i: int| 0 <= i < s.len() ==> p(s[i]),
    ensures
        s.filter(p) == s,
    decreases s.len(),
{
    reveal(Seq::filter);
    if s.len() > 0 {
        lemma_filter_all(s.drop_last(), p);
        assert(s.drop_last().push(s.last()) =~= s);
    }
}

/// Filtering by what holds of no item leaves nothing.
proof fn lemma_filter_none<A>(s: Seq<A>, p: spec_fn(A) -> bool)
    requires
        forall|i: int| 0 <= i < s.len() ==> !p(s[i]),
    ensures
        s.filter(p) == Seq::<A>::empty(),
    decreases s.len(),
{
    reveal(Seq::filter);
    if s.len() > 0 {
        lemma_filter_none(s.drop_last(), p);
    }
}

} // verus!
