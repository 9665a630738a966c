//! The open descriptors of a process: what each one is, and the table of them.

use std::collections::HashMap;
use vstd::prelude::*;

verus! {

/// A socket: both ends as text. Recorded only; a socket is never reopened.
#[derive(Debug, Clone, PartialEq, Eq)]
pub struct TcpConnection {
    pub local_addr: String,
    pub remote_addr: String,
}

/// A file or a directory: its path and how far into it the process has read.
#[derive(Debug, Clone, PartialEq, Eq)]
pub struct FileConnection {
    pub path: String,
    pub offset: u64,
}

/// One of the three descriptors that a process inherits: input, output, error.
#[derive(Debug, Clone, Copy, PartialEq, Eq, Structural)]
pub struct StdioConnection {}

/// What a descriptor is.
#[derive(Debug, Clone, PartialEq, Eq)]
pub enum Connection {
    /// Anything that cannot be restored.
    Invalid,
    Tcp(TcpConnection),
    File(FileConnection),
    Stdio(StdioConnection),
}

/// What a descriptor is, as a mathematical value.
pub enum ConnectionView {
    Invalid,
    Tcp { local_addr: Seq<char>, remote_addr: Seq<char> },
    File { path: Seq<char>, offset: u64 },
    Stdio,
}

impl View for Connection {
    type V = ConnectionView;

    open spec fn view(&self) -> ConnectionView {
        match self {
            Connection::Invalid => ConnectionView::Invalid,
            Connection::Tcp(t) => ConnectionView::Tcp {
                local_addr: t.local_addr@,
                remote_addr: t.remote_addr@,
            },
            Connection::File(f) => ConnectionView::File { path: f.path@, offset: f.offset },
            Connection::Stdio(_) => ConnectionView::Stdio,
        }
    }
}

/// What the target of a descriptor is, by the type of the file.
#[derive(Debug, Clone, Copy, PartialEq, Eq, Structural)]
pub enum FileKind {
    Regular,
    Directory,
    Socket,
    CharDevice,
    Other,
}

/// What a descriptor is recorded as. The numbers 0, 1 and 2 are standard
/// input, output and error, whatever stands behind them: the restored
/// process inherits them from the acceptor. Above them, a regular file keeps
/// its offset, 0 where none is known; a directory has offset 0; a socket is
/// recorded under its target for both ends; anything else cannot be
/// restored.
pub open spec fn spec_classify(fd: u32, kind: FileKind, target: Seq<char>, offset: Option<u64>)
    -> ConnectionView {
    if fd <= 2 {
        ConnectionView::Stdio
    } else {
        match kind {
            FileKind::Regular => ConnectionView::File {
                path: target,
                offset: match offset {
                    Some(o) => o,
                    None => 0,
                },
            },
            FileKind::Directory => ConnectionView::File { path: target, offset: 0 },
            FileKind::Socket => ConnectionView::Tcp { local_addr: target, remote_addr: target },
            FileKind::CharDevice => ConnectionView::Invalid,
            FileKind::Other => ConnectionView::Invalid,
        }
    }
}

/// Records what a descriptor is, from its number, the type of its target,
/// the target's path and, for a regular file, the offset read for it.
pub fn classify(fd: u32, kind: FileKind, target: String, offset: Option<u64>) -> (c: Connection)
    ensures
        c@ == spec_classify(fd, kind, target@, offset),
        c is Stdio <==> fd <= 2,
{
    if fd <= 2 {
        return Connection::Stdio(StdioConnection {  });
    }
    match kind {
        FileKind::Regular => Connection::File(
            FileConnection {
                path: target,
                offset: match offset {
                    Some(o) => o,
                    None => 0,
                },
            },
        ),
        FileKind::Directory => Connection::File(FileConnection { path: target, offset: 0 }),
        FileKind::Socket => {
            let local_addr = target.clone();
            Connection::Tcp(TcpConnection { local_addr, remote_addr: target })
        },
        FileKind::CharDevice => Connection::Invalid,
        FileKind::Other => Connection::Invalid,
    }
}

/// Whether no descriptor number occurs twice.
pub open spec fn unique_fds(entries: Seq<(u32, ConnectionView)>) -> bool {
    forall|i: int, j: int|
        0 <= i < j < entries.len() ==> (#[trigger] entries[i]).0 != (#[trigger] entries[j]).0
}

/// Whether the standard descriptors all have a number of at most 2.
pub open spec fn stdio_in_range(entries: Seq<(u32, ConnectionView)>) -> bool {
    forall|i: int|
        0 <= i < entries.len() && (#[trigger] entries[i]).1 is Stdio ==> entries[i].0 <= 2
}

/// Whether the descriptors numbered 0, 1 and 2, where the table has them,
/// are standard descriptors, and no other descriptor is.
pub open spec fn stdio_is_standard(entries: Seq<(u32, ConnectionView)>) -> bool {
    forall|i: int|
        0 <= i < entries.len() ==> ((#[trigger] entries[i]).1 is Stdio <==> entries[i].0 <= 2)
}

/// The index of the entry with the given number; the length where there is
/// none.
pub open spec fn position_of(entries: Seq<(u32, ConnectionView)>, fd: u32) -> int
    decreases entries.len(),
{
    if entries.len() == 0 {
        0
    } else if entries[0].0 == fd {
        0
    } else {
        1 + position_of(entries.drop_first(), fd)
    }
}

/// The table with the given descriptor recorded: in place of the record that
/// the number had, or after all others if it had none.
pub open spec fn spec_insert(entries: Seq<(u32, ConnectionView)>, fd: u32, c: ConnectionView)
    -> Seq<(u32, ConnectionView)> {
    let at = position_of(entries, fd);
    if at < entries.len() {
        entries.update(at, (fd, c))
    } else {
        entries.push((fd, c))
    }
}

/// What [`position_of`] finds: the first entry with the number, or the end.
pub proof fn lemma_position_of(entries: Seq<(u32, ConnectionView)>, fd: u32)
    ensures
        0 <= position_of(entries, fd) <= entries.len(),
        position_of(entries, fd) < entries.len() ==> entries[position_of(entries, fd)].0 == fd,
        forall|j: int| 0 <= j < position_of(entries, fd) ==> (#[trigger] entries[j]).0 != fd,
    decreases entries.len(),
{
    if entries.len() > 0 && entries[0].0 != fd {
        let rest = entries.drop_first();
        lemma_position_of(rest, fd);
        assert forall|j: int| 0 <= j < position_of(entries, fd) implies (#[trigger] entries[j]).0
            != fd by {
            if j > 0 {
                assert(entries[j] == rest[j - 1]);
            }
        }
    }
}

/// Recording a descriptor keeps a table free of repeated numbers.
pub proof fn lemma_insert_keeps_unique(
    entries: Seq<(u32, ConnectionView)>,
    fd: u32,
    c: ConnectionView,
)
    requires
        unique_fds(entries),
    ensures
        unique_fds(spec_insert(entries, fd, c)),
{
    lemma_position_of(entries, fd);
}

/// Recording, one after the other, the entries of a table that is free of
/// repeated numbers builds that table again.
pub proof fn lemma_insert_rebuilds(entries: Seq<(u32, ConnectionView)>, k: int)
    requires
        unique_fds(entries),
        0 <= k < entries.len(),
    ensures
        spec_insert(entries.take(k), entries[k].0, entries[k].1) == entries.take(k + 1),
{
    let head = entries.take(k);
    lemma_position_of(head, entries[k].0);
    let at = position_of(head, entries[k].0);
    if at < head.len() {
        assert(head[at] == entries[at]);
    }
    assert(head.push(entries[k]) =~= entries.take(k + 1));
}

/// The open descriptors of a process, by number. No number occurs twice.
/// The descriptors are kept in a hash map; beside it the table remembers in
/// which order the numbers were first recorded, so that the descriptors are
/// written out and restored in an order that is the same on every run.
#[derive(Debug, PartialEq, Eq)]
pub struct ConnectionMap {
    order: Vec<u32>,
    map: HashMap<u32, Connection>,
}

impl View for ConnectionMap {
    type V = Seq<(u32, ConnectionView)>;

    closed spec fn view(&self) -> Seq<(u32, ConnectionView)> {
        self.order@.map_values(|fd: u32| (fd, self.map@[fd]@))
    }
}

impl ConnectionMap {
    #[verifier::type_invariant]
    spec fn wf(self) -> bool {
        &&& self.order@.no_duplicates()
        &&& forall|fd: u32| self.order@.contains(fd) <==> #[trigger] self.map@.contains_key(fd)
    }

    /// A table with no descriptor.
    pub fn new() -> (m: ConnectionMap)
        ensures
            m@ == Seq::<(u32, ConnectionView)>::empty(),
    {
        broadcast use vstd::std_specs::hash::group_hash_axioms;

        let m = ConnectionMap { order: Vec::new(), map: HashMap::new() };
        assert(m@ =~= Seq::<(u32, ConnectionView)>::empty());
        m
    }

    /// The number of descriptors.
    pub fn len(&self) -> (n: usize)
        ensures
            n == self@.len(),
            unique_fds(self@),
    {
        proof {
            use_type_invariant(self);
        }
        self.order.len()
    }

    /// The number of the descriptor at a position.
    pub fn fd_at(&self, i: usize) -> (fd: u32)
        requires
            i < self@.len(),
        ensures
            fd == self@[i as int].0,
    {
        self.order[i]
    }

    /// The descriptor at a position.
    pub fn connection_at(&self, i: usize) -> (c: &Connection)
        requires
            i < self@.len(),
        ensures
            c@ == self@[i as int].1,
    {
        broadcast use vstd::std_specs::hash::group_hash_axioms;

        proof {
            use_type_invariant(self);
        }
        let fd = self.order[i];
        assert(self.order@.contains(fd));
        let found = self.map.get(&fd);
        found.unwrap()
    }

    /// The position of the descriptor with the given number.
    pub fn position(&self, fd: u32) -> (r: Option<usize>)
        ensures
            match r {
                Some(i) => i < self@.len() && i == position_of(self@, fd),
                None => position_of(self@, fd) == self@.len(),
            },
    {
        let mut i: usize = 0;
        proof {
            lemma_position_of(self@, fd);
        }
        while i < self.order.len()
            invariant
                i <= self@.len(),
                self@.len() == self.order@.len(),
                forall|j: int| 0 <= j < i ==> (#[trigger] self@[j]).0 != fd,
                0 <= position_of(self@, fd) <= self@.len(),
                position_of(self@, fd) < self@.len() ==> self@[position_of(self@, fd)].0 == fd,
                forall|j: int| 0 <= j < position_of(self@, fd) ==> (#[trigger] self@[j]).0 != fd,
            decreases self.order.len() - i,
        {
            if self.order[i] == fd {
                assert(self@[i as int].0 == fd);
                return Some(i);
            }
            assert(self@[i as int].0 != fd);
            i += 1;
        }
        None
    }

    /// The descriptor with the given number.
    pub fn get(&self, fd: u32) -> (r: Option<&Connection>)
        ensures
            match r {
                Some(c) => position_of(self@, fd) < self@.len() && c@ == self@[position_of(
                    self@,
                    fd,
                )].1,
                None => position_of(self@, fd) == self@.len(),
            },
    {
        broadcast use vstd::std_specs::hash::group_hash_axioms;

        proof {
            use_type_invariant(self);
            lemma_position_of(self@, fd);
            let at = position_of(self@, fd);
            if at < self@.len() {
                assert(self@[at].0 == self.order@[at]);
                assert(self.order@.contains(fd));
            }
            if self.map@.contains_key(fd) {
                let k = choose|k: int| 0 <= k < self.order@.len() && self.order@[k] == fd;
                assert(self@[k].0 == fd);
            }
        }
        self.map.get(&fd)
    }

    /// Whether the standard descriptors all have a number of at most 2.
    pub fn has_stdio_in_range(&self) -> (r: bool)
        ensures
            r == stdio_in_range(self@),
    {
        let mut i: usize = 0;
        while i < self.order.len()
            invariant
                i <= self@.len(),
                self@.len() == self.order@.len(),
                forall|j: int|
                    0 <= j < i && (#[trigger] self@[j]).1 is Stdio ==> self@[j].0 <= 2,
            decreases self.order.len() - i,
        {
            let fd = self.fd_at(i);
            match self.connection_at(i) {
                Connection::Stdio(_) => {
                    if fd > 2 {
                        assert(self@[i as int].1 is Stdio && self@[i as int].0 > 2);
                        return false;
                    }
                },
                _ => {},
            }
            assert(self@[i as int].1 is Stdio ==> self@[i as int].0 <= 2);
            i += 1;
        }
        true
    }

    /// Records a descriptor under its number. A record that the number
    /// already had is replaced where it stood.
    pub fn insert(&mut self, fd: u32, c: Connection)
        ensures
            final(self)@ == spec_insert(old(self)@, fd, c@),
    {
        broadcast use vstd::std_specs::hash::group_hash_axioms;

        proof {
            use_type_invariant(&*self);
            lemma_position_of(self@, fd);
        }
        let ghost before = self@;
        let ghost cv = c@;
        let mut taken = ConnectionMap::new();
        std::mem::swap(self, &mut taken);
        proof {
            use_type_invariant(&taken);
        }
        let ConnectionMap { order, map } = taken;
        let mut order = order;
        let mut map = map;
        let ghost order_before = order@;
        let ghost map_before = map@;
        assert(before == order_before.map_values(|x: u32| (x, map_before[x]@)));
        let existed = map.contains_key(&fd);
        map.insert(fd, c);
        if !existed {
            order.push(fd);
        }
        proof {
            let at = position_of(before, fd);
            let after = order@.map_values(|x: u32| (x, map@[x]@));
            if existed {
                let k = choose|k: int| 0 <= k < order_before.len() && order_before[k] == fd;
                assert(before[k].0 == fd);
                assert(at < before.len());
                assert(before[at].0 == order_before[at]);
                assert forall|j: int| 0 <= j < after.len() implies after[j] == before.update(
                    at,
                    (fd, cv),
                )[j] by {
                    if j != at {
                        assert(order_before[j] != order_before[at]);
                    }
                }
                assert(after =~= spec_insert(before, fd, cv));
            } else {
                if at < before.len() {
                    assert(before[at].0 == order_before[at]);
                    assert(order_before.contains(fd));
                }
                assert forall|j: int| 0 <= j < order_before.len() implies after[j]
                    == before[j] by {
                    assert(order_before.contains(order_before[j]));
                }
                assert(after =~= spec_insert(before, fd, cv));
                assert forall|i: int, j: int|
                    0 <= i < order@.len() && 0 <= j < order@.len() && i != j implies order@[i]
                    != order@[j] by {
                    if i == order_before.len() {
                        assert(order_before.contains(order@[j]));
                    }
                    if j == order_before.len() {
                        assert(order_before.contains(order@[i]));
                    }
                }
            }
            assert forall|x: u32| order@.contains(x) <==> #[trigger] map@.contains_key(x) by {
                if order@.contains(x) {
                    let k = choose|k: int| 0 <= k < order@.len() && order@[k] == x;
                    if k < order_before.len() {
                        assert(order_before.contains(x));
                    }
                }
                if map@.contains_key(x) && x != fd {
                    assert(order_before.contains(x));
                    let k = choose|k: int| 0 <= k < order_before.len() && order_before[k] == x;
                    assert(order@[k] == x);
                }
                if x == fd {
                    if existed {
                        let k = choose|k: int|
                            0 <= k < order_before.len() && order_before[k] == fd;
                        assert(order@[k] == fd);
                    } else {
                        assert(order@[order_before.len() as int] == fd);
                    }
                }
            }
        }
        *self = ConnectionMap { order, map };
    }
}

/// Records a descriptor found in a scan of a process: what it is goes by
/// [`spec_classify`], and it takes its place in the table by its number.
pub fn record_descriptor(
    table: &mut ConnectionMap,
    fd: u32,
    kind: FileKind,
    target: String,
    offset: Option<u64>,
)
    ensures
        final(table)@ == spec_insert(old(table)@, fd, spec_classify(fd, kind, target@, offset)),
{
    let c = classify(fd, kind, target, offset);
    table.insert(fd, c);
}

} // verus!
