//! The section table: every entry of the section header table, the payload
//! of every section, and the names from the string-table section.
//!
//! A parse has three stages, and a later one starts only when the one
//! before it is through without failure: all table entries are decoded,
//! then all payloads are read, then the string table is checked and all
//! names are resolved.

use crate::error::{ElfError, ElfErrorKind, ElfErrorView};
use crate::header::ElfHeaders;
use crate::section::{
    blank_entry, entry_read, Section, SectionHeader, SectionHeaderView, SectionType, SectionView,
};
use crate::source::{read_bytes, read_count, ByteSource};
use crate::utils::{is_terminated, read_null_term_str, text_at};
use vstd::prelude::*;

verus! {

/// The file offset of the table entry with the given index.
pub open spec fn entry_position(header: ElfHeaders, index: int) -> int {
    header.section_offset + index * header.sheader_size
}

/// Whether the source holds all decoded bytes of the table entry with the
/// given index.
pub open spec fn entry_readable(bytes: Seq<u8>, header: ElfHeaders, index: int) -> bool {
    read_count(bytes, entry_position(header, index), 40) == 40
}

/// Whether the source holds every entry of the table.
pub open spec fn entries_readable(bytes: Seq<u8>, header: ElfHeaders) -> bool {
    forall|i: int| 0 <= i < header.sheader_count ==> entry_readable(bytes, header, i)
}

/// The table entry with the given index, as decoded and before its name is
/// resolved.
pub open spec fn entry_at(bytes: Seq<u8>, header: ElfHeaders, index: int) -> SectionHeaderView {
    entry_read(
        blank_entry(entry_position(header, index) as u64),
        bytes,
        entry_position(header, index),
    )
}

/// Whether the source holds the whole payload that `entry` declares. A
/// `NoBits` section has no payload in the file, whatever its size.
pub open spec fn payload_readable(bytes: Seq<u8>, entry: SectionHeaderView) -> bool {
    entry.sec_type == SectionType::NoBits || read_count(
        bytes,
        entry.offset as int,
        entry.size as int,
    ) == entry.size
}

/// The payload of the section that `entry` describes: empty for `NoBits`,
/// else what a read of `size` bytes at `offset` delivers.
pub open spec fn payload_of(bytes: Seq<u8>, entry: SectionHeaderView) -> Seq<u8> {
    if entry.sec_type == SectionType::NoBits {
        Seq::empty()
    } else {
        read_bytes(bytes, entry.offset as int, entry.size as int)
    }
}

/// Whether the source holds the payload of every section of the table.
pub open spec fn payloads_readable(bytes: Seq<u8>, header: ElfHeaders) -> bool {
    forall|i: int|
        0 <= i < header.sheader_count ==> payload_readable(
            bytes,
            #[trigger] entry_at(bytes, header, i),
        )
}

/// Whether `index` is the first section of the table whose payload the
/// source does not hold in full.
pub open spec fn is_first_truncated(bytes: Seq<u8>, header: ElfHeaders, index: int) -> bool {
    &&& 0 <= index < header.sheader_count
    &&& !payload_readable(bytes, entry_at(bytes, header, index))
    &&& forall|j: int|
        0 <= j < index ==> payload_readable(bytes, #[trigger] entry_at(bytes, header, j))
}

/// The payload of the section that the file header names as the string
/// table.
pub open spec fn string_table(bytes: Seq<u8>, header: ElfHeaders) -> Seq<u8> {
    payload_of(bytes, entry_at(bytes, header, header.str_header_index as int))
}

/// Whether the file header names a section of the table as the string
/// table, and that section is of string-table type.
pub open spec fn string_table_valid(bytes: Seq<u8>, header: ElfHeaders) -> bool {
    &&& header.str_header_index < header.sheader_count
    &&& entry_at(bytes, header, header.str_header_index as int).sec_type
        == SectionType::StringTable
}

/// Whether the name of the section with the given index starts inside the
/// string table and is terminated.
pub open spec fn name_resolvable(bytes: Seq<u8>, header: ElfHeaders, index: int) -> bool {
    is_terminated(string_table(bytes, header), entry_at(bytes, header, index).name as nat)
}

/// The characters of the name of the section with the given index, as far
/// as the string table holds them.
pub open spec fn name_at(bytes: Seq<u8>, header: ElfHeaders, index: int) -> Seq<char> {
    text_at(string_table(bytes, header), entry_at(bytes, header, index).name as nat)
}

/// Whether every section of the table has a name that can be resolved.
pub open spec fn names_resolvable(bytes: Seq<u8>, header: ElfHeaders) -> bool {
    forall|i: int| 0 <= i < header.sheader_count ==> name_resolvable(bytes, header, i)
}

/// Whether `index` is the first section of the table whose name cannot be
/// resolved.
pub open spec fn is_first_unresolvable(bytes: Seq<u8>, header: ElfHeaders, index: int) -> bool {
    &&& 0 <= index < header.sheader_count
    &&& !name_resolvable(bytes, header, index)
    &&& forall|j: int| 0 <= j < index ==> name_resolvable(bytes, header, j)
}

/// The section with the given index: its entry with the name resolved, and
/// its payload.
pub open spec fn section_at(bytes: Seq<u8>, header: ElfHeaders, index: int) -> SectionView {
    SectionView {
        header: SectionHeaderView {
            str_name: name_at(bytes, header, index),
            ..entry_at(bytes, header, index)
        },
        data: payload_of(bytes, entry_at(bytes, header, index)),
    }
}

/// The sections of the table, in table order.
pub open spec fn sections_of(bytes: Seq<u8>, header: ElfHeaders) -> Seq<SectionView> {
    Seq::new(header.sheader_count as nat, |i: int| section_at(bytes, header, i))
}

/// The entries of the table, in table order and before their names are
/// resolved.
pub open spec fn entries_of(bytes: Seq<u8>, header: ElfHeaders) -> Seq<SectionHeaderView> {
    Seq::new(header.sheader_count as nat, |i: int| entry_at(bytes, header, i))
}

/// Where a source that stood at `start` stands when the payloads of
/// `entries` were read in order: behind the payload of the last section
/// that is not `NoBits`. For a `NoBits` section the source is not touched.
pub open spec fn position_after_payloads(entries: Seq<SectionHeaderView>, start: int) -> int
    decreases entries.len(),
{
    if entries.len() == 0 {
        start
    } else if entries.last().sec_type == SectionType::NoBits {
        position_after_payloads(entries.drop_last(), start)
    } else {
        entries.last().offset + entries.last().size
    }
}

/// Where the source stands after a parse of a table that is not empty: the
/// payloads are read when the source stands behind the decoded bytes of
/// the last table entry.
pub open spec fn position_after_sections(bytes: Seq<u8>, header: ElfHeaders) -> int {
    position_after_payloads(
        entries_of(bytes, header),
        entry_position(header, header.sheader_count - 1) + 40,
    )
}

/// The models of the headers of a sequence of sections.
pub open spec fn header_views(sections: Seq<Section>) -> Seq<SectionHeaderView> {
    Seq::new(sections.len(), |i: int| sections[i].header@)
}

/// The models of a sequence of sections.
pub open spec fn section_views(sections: Seq<Section>) -> Seq<SectionView> {
    Seq::new(sections.len(), |i: int| sections[i]@)
}

/// Whether the section table of `header` can be parsed from `bytes`: no
/// stage fails.
pub open spec fn sections_parse(bytes: Seq<u8>, header: ElfHeaders) -> bool {
    &&& entries_readable(bytes, header)
    &&& payloads_readable(bytes, header)
    &&& string_table_valid(bytes, header)
    &&& names_resolvable(bytes, header)
}

/// Whether parsing the section table of `header` from `bytes` ends in
/// `failure`. The first stage that fails decides, and within a stage the
/// first section that fails.
pub open spec fn sections_failure(bytes: Seq<u8>, header: ElfHeaders, failure: ElfErrorView)
    -> bool {
    match failure {
        ElfErrorView::NotElf => false,
        ElfErrorView::Io => !entries_readable(bytes, header),
        ElfErrorView::TruncatedSection { index } => {
            &&& entries_readable(bytes, header)
            &&& is_first_truncated(bytes, header, index as int)
        },
        ElfErrorView::IndexOutOfRange => {
            &&& entries_readable(bytes, header)
            &&& payloads_readable(bytes, header)
            &&& header.str_header_index >= header.sheader_count
        },
        ElfErrorView::InvalidStringTable => {
            &&& entries_readable(bytes, header)
            &&& payloads_readable(bytes, header)
            &&& header.str_header_index < header.sheader_count
            &&& !string_table_valid(bytes, header)
        },
        ElfErrorView::InvalidString { partial } => {
            &&& entries_readable(bytes, header)
            &&& payloads_readable(bytes, header)
            &&& string_table_valid(bytes, header)
            &&& exists|i: int|
                #[trigger] is_first_unresolvable(bytes, header, i) && partial == name_at(
                    bytes,
                    header,
                    i,
                )
        },
    }
}

/// A parse yields one section for each entry of the table.
pub proof fn lemma_section_count(bytes: Seq<u8>, header: ElfHeaders)
    ensures
        sections_of(bytes, header).len() == header.sheader_count,
{
}

/// In a table that parses, the payload of every section that is not
/// `NoBits` has exactly the declared size, and the payload of every
/// `NoBits` section is empty, whatever size it declares.
pub proof fn lemma_payload_length(bytes: Seq<u8>, header: ElfHeaders, index: int)
    requires
        sections_parse(bytes, header),
        0 <= index < header.sheader_count,
    ensures
        sections_of(bytes, header)[index] == section_at(bytes, header, index),
        section_at(bytes, header, index).header.sec_type != SectionType::NoBits ==> section_at(
            bytes,
            header,
            index,
        ).data.len() == section_at(bytes, header, index).header.size,
        section_at(bytes, header, index).header.sec_type == SectionType::NoBits ==> section_at(
            bytes,
            header,
            index,
        ).data.len() == 0,
{
    let entry = entry_at(bytes, header, index);
    assert(payload_readable(bytes, entry));
}

/// A table that parses has no failure.
pub proof fn lemma_parse_excludes_failure(
    bytes: Seq<u8>,
    header: ElfHeaders,
    failure: ElfErrorView,
)
    requires
        sections_parse(bytes, header),
    ensures
        !sections_failure(bytes, header, failure),
{
    match failure {
        ElfErrorView::TruncatedSection { index } => {
            if is_first_truncated(bytes, header, index as int) {
                assert(payload_readable(bytes, entry_at(bytes, header, index as int)));
            }
        },
        ElfErrorView::InvalidString { partial } => {
            if sections_failure(bytes, header, failure) {
                let i = choose|i: int| #[trigger]
                    is_first_unresolvable(bytes, header, i) && partial == name_at(
                        bytes,
                        header,
                        i,
                    );
                assert(name_resolvable(bytes, header, i));
            }
        },
        _ => {},
    }
}

/// A table has at most one failure: the first stage that fails decides,
/// and in it the first section that fails.
pub proof fn lemma_failure_unique(
    bytes: Seq<u8>,
    header: ElfHeaders,
    one: ElfErrorView,
    other: ElfErrorView,
)
    requires
        sections_failure(bytes, header, one),
        sections_failure(bytes, header, other),
    ensures
        one == other,
{
    if one is TruncatedSection {
        let i = one->index as int;
        assert(!payload_readable(bytes, entry_at(bytes, header, i)));
        if other is TruncatedSection {
            let k = other->index as int;
            assert(!payload_readable(bytes, entry_at(bytes, header, k)));
            assert(i == k);
        }
    } else if other is TruncatedSection {
        let k = other->index as int;
        assert(!payload_readable(bytes, entry_at(bytes, header, k)));
    } else if one is InvalidString && other is InvalidString {
        let i = choose|i: int| #[trigger]
            is_first_unresolvable(bytes, header, i) && one->partial == name_at(bytes, header, i);
        let k = choose|k: int| #[trigger]
            is_first_unresolvable(bytes, header, k) && other->partial == name_at(
                bytes,
                header,
                k,
            );
        assert(i == k);
    }
}

/// A table either parses or has a failure.
pub proof fn lemma_parse_or_failure(bytes: Seq<u8>, header: ElfHeaders)
    ensures
        sections_parse(bytes, header) || exists|failure: ElfErrorView| #[trigger]
            sections_failure(bytes, header, failure),
{
    if !entries_readable(bytes, header) {
        assert(sections_failure(bytes, header, ElfErrorView::Io));
    } else if !payloads_readable(bytes, header) {
        let holds = |i: int| payload_readable(bytes, entry_at(bytes, header, i));
        let witness = choose|i: int|
            0 <= i < header.sheader_count && !payload_readable(
                bytes,
                #[trigger] entry_at(bytes, header, i),
            );
        assert(!holds(witness));
        let index = first_failing(header.sheader_count as int, holds);
        assert forall|j: int| 0 <= j < index implies payload_readable(
            bytes,
            #[trigger] entry_at(bytes, header, j),
        ) by {
            assert(holds(j));
        }
        assert(is_first_truncated(bytes, header, index));
        assert(sections_failure(
            bytes,
            header,
            ElfErrorView::TruncatedSection { index: index as u16 },
        ));
    } else if header.str_header_index >= header.sheader_count {
        assert(sections_failure(bytes, header, ElfErrorView::IndexOutOfRange));
    } else if !string_table_valid(bytes, header) {
        assert(sections_failure(bytes, header, ElfErrorView::InvalidStringTable));
    } else if !names_resolvable(bytes, header) {
        let holds = |i: int| name_resolvable(bytes, header, i);
        let witness = choose|i: int|
            0 <= i < header.sheader_count && !name_resolvable(bytes, header, i);
        assert(!holds(witness));
        let index = first_failing(header.sheader_count as int, holds);
        assert forall|j: int| 0 <= j < index implies name_resolvable(bytes, header, j) by {
            assert(holds(j));
        }
        assert(is_first_unresolvable(bytes, header, index));
        assert(sections_failure(
            bytes,
            header,
            ElfErrorView::InvalidString { partial: name_at(bytes, header, index) },
        ));
    }
}

/// The least index below `count` at which `holds` fails, where it fails
/// below `count` at all.
proof fn first_failing(count: int, holds: spec_fn(int) -> bool) -> (index: int)
    requires
        exists|i: int| 0 <= i < count && !#[trigger] holds(i),
    ensures
        0 <= index < count,
        !holds(index),
        forall|j: int| 0 <= j < index ==> #[trigger] holds(j),
    decreases count,
{
    let i = choose|i: int| 0 <= i < count && !#[trigger] holds(i);
    if exists|j: int| 0 <= j < i && !#[trigger] holds(j) {
        first_failing(i, holds)
    } else {
        i
    }
}

/// Where every entry and every payload can be read and the section that
/// the file header names as the string table is of another type, the parse
/// fails with `InvalidStringTable`.
pub proof fn lemma_wrong_string_table(bytes: Seq<u8>, header: ElfHeaders)
    requires
        entries_readable(bytes, header),
        payloads_readable(bytes, header),
        header.str_header_index < header.sheader_count,
        entry_at(bytes, header, header.str_header_index as int).sec_type
            != SectionType::StringTable,
    ensures
        !sections_parse(bytes, header),
        sections_failure(bytes, header, ElfErrorView::InvalidStringTable),
{
}

/// Where every entry can be read and `index` is the first section whose
/// payload the source does not hold in full, the parse fails with
/// `TruncatedSection` for that index.
pub proof fn lemma_truncated_payload(bytes: Seq<u8>, header: ElfHeaders, index: int)
    requires
        entries_readable(bytes, header),
        is_first_truncated(bytes, header, index),
    ensures
        !sections_parse(bytes, header),
        sections_failure(bytes, header, ElfErrorView::TruncatedSection { index: index as u16 }),
{
    assert(!payload_readable(bytes, entry_at(bytes, header, index)));
}

/// Stage one: decodes every table entry, in table order.
fn read_entries(header: &ElfHeaders, f: &mut ByteSource) -> (r: Result<Vec<Section>, ElfError>)
    ensures
        final(f).bytes() == old(f).bytes(),
        match r {
            Ok(sections) => {
                &&& entries_readable(old(f).bytes(), *header)
                &&& sections.len() == header.sheader_count
                &&& final(f).position() == (if header.sheader_count == 0 {
                    old(f).position()
                } else {
                    entry_position(*header, header.sheader_count - 1) + 40
                })
                &&& forall|i: int|
                    0 <= i < header.sheader_count ==> (#[trigger] sections[i])@ == (SectionView {
                        header: entry_at(old(f).bytes(), *header, i),
                        data: Seq::empty(),
                    })
            },
            Err(error) => error@ == ElfErrorView::Io && !entries_readable(old(f).bytes(), *header),
        },
{
    let ghost bytes = f.bytes();
    let mut sections: Vec<Section> = Vec::new();
    let mut i: u16 = 0;
    while i < header.sheader_count
        invariant
            i <= header.sheader_count,
            sections.len() == i,
            f.bytes() == bytes,
            bytes == old(f).bytes(),
            f.position() == (if i == 0 {
                old(f).position()
            } else {
                entry_position(*header, i - 1) + 40
            }),
            forall|j: int| 0 <= j < i ==> entry_readable(bytes, *header, j),
            forall|j: int|
                0 <= j < i ==> (#[trigger] sections[j])@ == (SectionView {
                    header: entry_at(bytes, *header, j),
                    data: Seq::empty(),
                }),
        decreases header.sheader_count - i,
    {
        assert(0 <= i * header.sheader_size <= 0xffff * 0xffff) by (nonlinear_arith)
            requires
                0 <= header.sheader_size <= 0xffff,
                0 <= i <= 0xffff,
        ;
        let step: u64 = i as u64 * header.sheader_size as u64;
        assert(entry_position(*header, i as int) == header.section_offset + step);
        let location: u64 = match header.section_offset.checked_add(step) {
            Some(location) => location,
            None => {
                proof {
                    f.lemma_len_bound();
                    assert(!entry_readable(bytes, *header, i as int));
                }
                return Err(ElfError::new(ElfErrorKind::Io));
            },
        };
        let mut entry = SectionHeader::new(location);
        match entry.from_file(f) {
            Ok(_) => {},
            Err(error) => {
                assert(!entry_readable(bytes, *header, i as int));
                return Err(error);
            },
        }
        sections.push(Section { header: entry, data: Vec::new() });
        i = i + 1;
    }
    Ok(sections)
}

/// Stage two: reads the payload of every section, in table order. A
/// `NoBits` section gets an empty payload and the source is left alone.
fn read_payloads(f: &mut ByteSource, sections: &mut Vec<Section>) -> (r: Result<(), ElfError>)
    requires
        old(sections).len() <= 0xffff,
    ensures
        final(f).bytes() == old(f).bytes(),
        final(sections).len() == old(sections).len(),
        match r {
            Ok(_) => {
                &&& final(f).position() == position_after_payloads(
                    header_views(old(sections)@),
                    old(f).position(),
                )
                &&& forall|i: int|
                    0 <= i < old(sections).len() ==> {
                        &&& payload_readable(
                            old(f).bytes(),
                            (#[trigger] old(sections)[i]).header@,
                        )
                        &&& final(sections)[i].header@ == old(sections)[i].header@
                        &&& final(sections)[i].data@ == payload_of(
                            old(f).bytes(),
                            old(sections)[i].header@,
                        )
                    }
            },
            Err(error) => {
                &&& error@ matches ElfErrorView::TruncatedSection { index }
                &&& index < old(sections).len()
                &&& !payload_readable(old(f).bytes(), old(sections)[index as int].header@)
                &&& forall|j: int|
                    0 <= j < index ==> payload_readable(
                        old(f).bytes(),
                        (#[trigger] old(sections)[j]).header@,
                    )
            },
        },
{
    let ghost bytes = f.bytes();
    let ghost before = sections@;
    let mut i: usize = 0;
    while i < sections.len()
        invariant
            i <= sections.len(),
            sections.len() == before.len(),
            sections.len() <= 0xffff,
            f.bytes() == bytes,
            bytes == old(f).bytes(),
            before == old(sections)@,
            f.position() == position_after_payloads(
                header_views(before).take(i as int),
                old(f).position(),
            ),
            forall|j: int|
                0 <= j < sections.len() ==> (#[trigger] sections[j]).header@ == before[j].header@,
            forall|j: int|
                0 <= j < i ==> payload_readable(bytes, (#[trigger] before[j]).header@)
                    && sections[j].data@ == payload_of(bytes, before[j].header@),
        decreases sections.len() - i,
    {
        proof {
            let entries = header_views(before);
            assert(entries.take(i + 1).drop_last() =~= entries.take(i as int));
            assert(entries.take(i + 1).last() == before[i as int].header@);
        }
        if sections[i].header.sec_type != SectionType::NoBits {
            // move the read position to the start of the section data
            f.seek(sections[i].header.offset);
            let buffer = f.read(sections[i].header.size);
            if buffer.len() as u64 != sections[i].header.size {
                let index: u16 = i as u16;
                let error = ElfError::new(ElfErrorKind::TruncatedSection { index });
                assert(!payload_readable(bytes, before[index as int].header@));
                return Err(error);
            }
            sections[i].data = buffer;
        } else {
            sections[i].data = Vec::new();
        }
        i = i + 1;
    }
    proof {
        let entries = header_views(before);
        assert(entries.take(i as int) =~= entries);
    }
    Ok(())
}

/// Stage three: gives every section the name that starts at its name
/// offset in `table`, in table order.
fn resolve_names(sections: &mut Vec<Section>, table: &Vec<u8>) -> (r: Result<(), ElfError>)
    ensures
        final(sections).len() == old(sections).len(),
        match r {
            Ok(_) => forall|i: int|
                0 <= i < old(sections).len() ==> {
                    &&& is_terminated(table@, (#[trigger] old(sections)[i]).header.name as nat)
                    &&& final(sections)[i]@ == (SectionView {
                        header: SectionHeaderView {
                            str_name: text_at(table@, old(sections)[i].header.name as nat),
                            ..old(sections)[i].header@
                        },
                        data: old(sections)[i].data@,
                    })
                },
            Err(error) => exists|index: int|
                {
                    &&& 0 <= index < old(sections).len()
                    &&& !is_terminated(table@, (#[trigger] old(sections)[index]).header.name as nat)
                    &&& error@ == (ElfErrorView::InvalidString {
                        partial: text_at(table@, old(sections)[index].header.name as nat),
                    })
                    &&& forall|j: int|
                        0 <= j < index ==> is_terminated(
                            table@,
                            (#[trigger] old(sections)[j]).header.name as nat,
                        )
                },
        },
{
    let ghost before = sections@;
    let mut i: usize = 0;
    while i < sections.len()
        invariant
            i <= sections.len(),
            sections.len() == before.len(),
            before == old(sections)@,
            forall|j: int| i <= j < sections.len() ==> (#[trigger] sections[j]) == before[j],
            forall|j: int|
                0 <= j < i ==> is_terminated(table@, (#[trigger] before[j]).header.name as nat)
                    && sections[j]@ == (SectionView {
                    header: SectionHeaderView {
                        str_name: text_at(table@, before[j].header.name as nat),
                        ..before[j].header@
                    },
                    data: before[j].data@,
                }),
        decreases sections.len() - i,
    {
        match read_null_term_str(sections[i].header.name, table) {
            Ok(name) => {
                sections[i].header.str_name = name;
            },
            Err(error) => {
                assert(!is_terminated(table@, before[i as int].header.name as nat));
                return Err(error);
            },
        }
        i = i + 1;
    }
    Ok(())
}

impl ElfHeaders {
    /// Parses the section table that this header describes from `f`: one
    /// section for each table entry, in table order, each with its payload
    /// and its name. The read position that `f` had is of no account: the
    /// source is sought for every entry and every payload, and afterwards
    /// it stands behind the payload that was read last.
    ///
    /// A failure ends the parse at once and no section is handed out.
    pub fn sections_from_file(&self, f: &mut ByteSource) -> (r: Result<Vec<Section>, ElfError>)
        ensures
            final(f).bytes() == old(f).bytes(),
            match r {
                Ok(sections) => section_views(sections@) == sections_of(old(f).bytes(), *self),
                Err(error) => sections_failure(old(f).bytes(), *self, error@),
            },
            r is Ok <==> sections_parse(old(f).bytes(), *self),
            r is Ok ==> final(f).position() == position_after_sections(old(f).bytes(), *self),
            r matches Ok(sections) ==> sections.len() == self.sheader_count,
            r matches Ok(sections) ==> forall|i: int|
                0 <= i < sections.len() ==> (#[trigger] sections[i]).data.len() == (if sections[i].header.sec_type
                    == SectionType::NoBits {
                    0
                } else {
                    sections[i].header.size as int
                }),
            entries_readable(old(f).bytes(), *self) && payloads_readable(old(f).bytes(), *self)
                && self.str_header_index < self.sheader_count && entry_at(
                old(f).bytes(),
                *self,
                self.str_header_index as int,
            ).sec_type != SectionType::StringTable ==> r is Err && r->Err_0@
                == ElfErrorView::InvalidStringTable,
            forall|index: int|
                entries_readable(old(f).bytes(), *self) && #[trigger] is_first_truncated(
                    old(f).bytes(),
                    *self,
                    index,
                ) ==> r is Err && r->Err_0@ == (ElfErrorView::TruncatedSection {
                    index: index as u16,
                }),
    {
        let ghost bytes = f.bytes();
        proof {
            if entries_readable(bytes, *self) && payloads_readable(bytes, *self)
                && self.str_header_index < self.sheader_count && entry_at(
                bytes,
                *self,
                self.str_header_index as int,
            ).sec_type != SectionType::StringTable {
                lemma_wrong_string_table(bytes, *self);
            }
            assert forall|index: int|
                entries_readable(bytes, *self) && #[trigger] is_first_truncated(
                    bytes,
                    *self,
                    index,
                ) implies !sections_parse(bytes, *self) && sections_failure(
                bytes,
                *self,
                ElfErrorView::TruncatedSection { index: index as u16 },
            ) by {
                lemma_truncated_payload(bytes, *self, index);
            }
            assert forall|one: ElfErrorView, other: ElfErrorView|
                #[trigger] sections_failure(bytes, *self, one) && #[trigger] sections_failure(
                    bytes,
                    *self,
                    other,
                ) implies one == other by {
                lemma_failure_unique(bytes, *self, one, other);
            }
        }
        let mut sections = match read_entries(self, f) {
            Ok(sections) => sections,
            Err(error) => {
                return Err(error);
            },
        };
        let ghost decoded = sections@;
        match read_payloads(f, &mut sections) {
            Ok(_) => {},
            Err(error) => {
                proof {
                    let index = error@->index;
                    assert(decoded[index as int]@.header == entry_at(bytes, *self, index as int));
                    assert forall|j: int| 0 <= j < index implies payload_readable(
                        bytes,
                        #[trigger] entry_at(bytes, *self, j),
                    ) by {
                        assert(decoded[j]@.header == entry_at(bytes, *self, j));
                    }
                }
                return Err(error);
            },
        }
        let ghost loaded = sections@;
        proof {
            assert(header_views(decoded) =~= entries_of(bytes, *self));
            assert forall|i: int| 0 <= i < self.sheader_count implies payload_readable(
                bytes,
                #[trigger] entry_at(bytes, *self, i),
            ) by {
                assert(decoded[i]@.header == entry_at(bytes, *self, i));
            }
        }
        // the designated section must be a string table before any name is resolved
        let index: usize = self.str_header_index as usize;
        if index >= sections.len() {
            return Err(ElfError::new(ElfErrorKind::IndexOutOfRange));
        }
        assert(decoded[index as int]@.header == entry_at(bytes, *self, index as int));
        if sections[index].header.sec_type != SectionType::StringTable {
            return Err(ElfError::new(ElfErrorKind::InvalidStringTable));
        }
        let table: Vec<u8> = sections[index].data.clone();
        assert(table@ =~= string_table(bytes, *self));
        match resolve_names(&mut sections, &table) {
            Ok(_) => {},
            Err(error) => {
                proof {
                    let first = choose|first: int|
                        {
                            &&& 0 <= first < loaded.len()
                            &&& !is_terminated(table@, (#[trigger] loaded[first]).header.name as nat)
                            &&& error@ == (ElfErrorView::InvalidString {
                                partial: text_at(table@, loaded[first].header.name as nat),
                            })
                            &&& forall|j: int|
                                0 <= j < first ==> is_terminated(
                                    table@,
                                    (#[trigger] loaded[j]).header.name as nat,
                                )
                        };
                    assert(decoded[first]@.header == entry_at(bytes, *self, first));
                    assert forall|j: int| 0 <= j < first implies name_resolvable(
                        bytes,
                        *self,
                        j,
                    ) by {
                        assert(decoded[j]@.header == entry_at(bytes, *self, j));
                        assert(is_terminated(table@, loaded[j].header.name as nat));
                    }
                    assert(is_first_unresolvable(bytes, *self, first));
                }
                return Err(error);
            },
        }
        proof {
            assert forall|i: int| 0 <= i < self.sheader_count implies name_resolvable(
                bytes,
                *self,
                i,
            ) && sections[i]@ == section_at(bytes, *self, i) by {
                assert(decoded[i]@.header == entry_at(bytes, *self, i));
                assert(is_terminated(table@, loaded[i].header.name as nat));
            }
            assert(section_views(sections@) =~= sections_of(bytes, *self));
            assert forall|i: int| 0 <= i < sections.len() implies (#[trigger] sections[i]).data.len()
                == (if sections[i].header.sec_type == SectionType::NoBits {
                0
            } else {
                sections[i].header.size as int
            }) by {
                lemma_payload_length(bytes, *self, i);
                assert(sections[i]@ == section_at(bytes, *self, i));
            }
        }
        Ok(sections)
    }
}

} // verus!
