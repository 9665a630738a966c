//! Building the table of descriptors from what a scan of a process found.
//!
//! The embedding program walks the descriptors of the process and notes, for
//! each, its number, the type of the file behind it, the path of that file
//! and, for a regular file, what the kernel says of the descriptor. The
//! table is made of these notes, in the order in which they come. The scan
//! fails at the first note whose offset cannot be read.

use crate::descriptors::{
    lemma_insert_keeps_unique, lemma_position_of, position_of, record_descriptor, spec_classify,
    spec_insert, stdio_in_range, stdio_is_standard, unique_fds, ConnectionMap, ConnectionView,
    FileKind,
};
use crate::failure::TeleError;
use crate::fdinfo::{
    all_digits, decimal_value, get_fd_offset, lemma_pos_line_gives_offset, pos_line,
    spec_offset_from,
};
use vstd::prelude::*;

verus! {

/// What a scan notes of one descriptor.
#[derive(Debug, Clone, PartialEq, Eq)]
pub struct Found {
    /// The number of the descriptor.
    pub fd: u32,
    /// The type of the file behind it.
    pub kind: FileKind,
    /// The path of that file.
    pub target: String,
    /// What the kernel says of the descriptor, where the scan read it.
    pub fdinfo: Option<Vec<u8>>,
}

/// A note of a scan as a mathematical value.
pub struct FoundView {
    pub fd: u32,
    pub kind: FileKind,
    pub target: Seq<char>,
    pub fdinfo: Option<Seq<u8>>,
}

impl View for Found {
    type V = FoundView;

    open spec fn view(&self) -> FoundView {
        FoundView {
            fd: self.fd,
            kind: self.kind,
            target: self.target@,
            fdinfo: match self.fdinfo {
                Some(text) => Some(text@),
                None => None,
            },
        }
    }
}

/// The notes of a vector as mathematical values.
pub open spec fn found_views(found: Seq<Found>) -> Seq<FoundView> {
    found.map_values(|f: Found| f@)
}

impl FoundView {
    /// Whether the offset of the descriptor is asked for: it is a regular
    /// file above the standard descriptors, and the scan read what the
    /// kernel says of it.
    pub open spec fn has_offset(self) -> bool {
        self.fd > 2 && self.kind == FileKind::Regular && self.fdinfo is Some
    }

    /// The offset that the kernel gives for the descriptor, where it is
    /// asked for and the kernel names one; the failure of a description
    /// that cannot be read.
    pub open spec fn offset(self) -> Result<Option<u64>, TeleError> {
        if self.has_offset() {
            spec_offset_from(self.fdinfo->Some_0, 0)
        } else {
            Ok(None)
        }
    }

    /// What the descriptor is recorded as.
    pub open spec fn connection(self) -> Result<ConnectionView, TeleError> {
        match self.offset() {
            Ok(offset) => Ok(spec_classify(self.fd, self.kind, self.target, offset)),
            Err(error) => Err(error),
        }
    }
}

/// The table that the notes of a scan make: each descriptor recorded under
/// its number, a later note of a number in place of an earlier one. The
/// first note whose offset cannot be read fails the scan.
pub open spec fn spec_scan(found: Seq<FoundView>) -> Result<Seq<(u32, ConnectionView)>, TeleError>
    decreases found.len(),
{
    if found.len() == 0 {
        Ok(Seq::empty())
    } else {
        match spec_scan(found.drop_last()) {
            Ok(table) => match found.last().connection() {
                Ok(c) => Ok(spec_insert(table, found.last().fd, c)),
                Err(error) => Err(error),
            },
            Err(error) => Err(error),
        }
    }
}

/// Makes the table of descriptors from the notes of a scan. In it the
/// descriptors numbered 0, 1 and 2 are standard descriptors, and no others
/// are.
pub fn scan_file_descriptors(found: &Vec<Found>) -> (r: Result<ConnectionMap, TeleError>)
    ensures
        match r {
            Ok(table) => spec_scan(found_views(found@)) == Ok::<
                Seq<(u32, ConnectionView)>,
                TeleError,
            >(table@) && stdio_is_standard(table@) && stdio_in_range(table@),
            Err(error) => spec_scan(found_views(found@)) == Err::<
                Seq<(u32, ConnectionView)>,
                TeleError,
            >(error),
        },
{
    proof {
        lemma_scan_is_sound(found_views(found@));
    }
    let ghost all = found_views(found@);
    let mut table = ConnectionMap::new();
    let mut i: usize = 0;
    assert(all.take(0) =~= Seq::<FoundView>::empty());
    while i < found.len()
        invariant
            i <= found@.len(),
            all == found_views(found@),
            spec_scan(all.take(i as int)) == Ok::<Seq<(u32, ConnectionView)>, TeleError>(table@),
        decreases found.len() - i,
    {
        let note = &found[i];
        proof {
            let longer = all.take(i + 1);
            assert(longer.drop_last() =~= all.take(i as int));
            assert(longer.last() == note@);
        }
        let wanted = note.fd > 2 && matches!(note.kind, FileKind::Regular);
        let offset = match &note.fdinfo {
            Some(text) => {
                if wanted {
                    match get_fd_offset(text.as_slice()) {
                        Ok(offset) => offset,
                        Err(error) => {
                            proof {
                                lemma_scan_fails_for_good(all, i + 1);
                            }
                            return Err(error);
                        },
                    }
                } else {
                    None
                }
            },
            None => None,
        };
        record_descriptor(&mut table, note.fd, note.kind, note.target.clone(), offset);
        i += 1;
    }
    assert(all.take(i as int) =~= all);
    Ok(table)
}

/// A scan that has failed on its first notes has failed, whatever notes
/// follow.
pub proof fn lemma_scan_fails_for_good(found: Seq<FoundView>, k: int)
    requires
        0 <= k <= found.len(),
        spec_scan(found.take(k)) is Err,
    ensures
        spec_scan(found) == spec_scan(found.take(k)),
    decreases found.len() - k,
{
    if k < found.len() {
        assert(found.take(k + 1).drop_last() =~= found.take(k));
        lemma_scan_fails_for_good(found, k + 1);
    } else {
        assert(found.take(k) =~= found);
    }
}

/// Recording a descriptor as a scan classifies it keeps a table such that
/// its descriptors up to number 2, and no others, are standard.
pub proof fn lemma_record_keeps_stdio_standard(
    table: Seq<(u32, ConnectionView)>,
    note: FoundView,
)
    requires
        stdio_is_standard(table),
        note.connection() is Ok,
    ensures
        stdio_is_standard(spec_insert(table, note.fd, note.connection()->Ok_0)),
{
    lemma_position_of(table, note.fd);
    let after = spec_insert(table, note.fd, note.connection()->Ok_0);
    let at = position_of(table, note.fd);
    assert forall|i: int| 0 <= i < after.len() implies ((#[trigger] after[i]).1 is Stdio
        <==> after[i].0 <= 2) by {
        if i != at {
            assert(after[i] == table[i]);
        }
    }
}

/// In the table of a scan no number occurs twice; the descriptors numbered
/// 0, 1 and 2, where the process has them, are standard descriptors, and
/// every standard descriptor has one of these numbers.
pub proof fn lemma_scan_is_sound(found: Seq<FoundView>)
    ensures
        spec_scan(found) matches Ok(table) ==> unique_fds(table) && stdio_is_standard(table)
            && stdio_in_range(table),
    decreases found.len(),
{
    if found.len() > 0 {
        lemma_scan_is_sound(found.drop_last());
        if spec_scan(found) is Ok {
            let before = spec_scan(found.drop_last())->Ok_0;
            lemma_insert_keeps_unique(before, found.last().fd, found.last().connection()->Ok_0);
            lemma_record_keeps_stdio_standard(before, found.last());
        }
    }
}

/// A regular file above the standard descriptors, of which the kernel says
/// `pos:`, plain white space and a decimal number in its first line, is
/// recorded under its number as that file at that offset.
pub proof fn lemma_file_keeps_its_offset(
    found: Seq<FoundView>,
    note: FoundView,
    blank: Seq<u8>,
    digits: Seq<u8>,
    rest: Seq<u8>,
)
    requires
        spec_scan(found) is Ok,
        note.fd > 2,
        note.kind == FileKind::Regular,
        note.fdinfo == Some(pos_line(blank, digits) + seq![0x0au8] + rest),
        blank.len() > 0,
        forall|i: int| 0 <= i < blank.len() ==> #[trigger] blank[i] == 0x20 || blank[i] == 0x09,
        digits.len() > 0,
        all_digits(digits),
        decimal_value(digits) <= u64::MAX,
    ensures
        spec_scan(found.push(note)) matches Ok(table) && {
            let at = position_of(table, note.fd);
            &&& at < table.len()
            &&& table[at] == (
                note.fd,
                ConnectionView::File { path: note.target, offset: decimal_value(digits) as u64 },
            )
        },
{
    lemma_pos_line_gives_offset(blank, digits, rest);
    assert(found.push(note).drop_last() =~= found);
    let before = spec_scan(found)->Ok_0;
    lemma_position_of(before, note.fd);
    let table = spec_scan(found.push(note))->Ok_0;
    lemma_position_of(table, note.fd);
    let was = position_of(before, note.fd);
    let at = position_of(table, note.fd);
    assert(table[was].0 == note.fd);
    if was < at {
        assert(table[was].0 != note.fd);
    }
    if at < was {
        assert(table[at] == before[at]);
        assert(before[at].0 != note.fd);
    }
}

} // verus!
