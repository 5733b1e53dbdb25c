use elfparse::{
    ByteSource, ElfError, ElfErrorKind, ElfHeaders, Section, SectionHeader, SectionType,
};

const STRTAB: u32 = 3;
const PROGBITS: u32 = 1;
const NOBITS: u32 = 8;

struct Entry {
    name: u32,
    kind: u32,
    flags: u64,
    addr: u64,
    offset: u64,
    size: u64,
}

fn entry_bytes(entry: &Entry) -> Vec<u8> {
    let mut bytes = Vec::new();
    bytes.extend_from_slice(&entry.name.to_le_bytes());
    bytes.extend_from_slice(&entry.kind.to_le_bytes());
    bytes.extend_from_slice(&entry.flags.to_le_bytes());
    bytes.extend_from_slice(&entry.addr.to_le_bytes());
    bytes.extend_from_slice(&entry.offset.to_le_bytes());
    bytes.extend_from_slice(&entry.size.to_le_bytes());
    bytes.extend_from_slice(&[0xee; 24]);
    bytes
}

fn header_bytes(table_offset: u64, entry_size: u16, count: u16, names: u16) -> Vec<u8> {
    let mut bytes = vec![
        0x7f, 0x45, 0x4c, 0x46, 2, 1, 1, 0, 0, 0, 0, 0, 0, 0, 0, 0,
    ];
    bytes.extend_from_slice(&1u16.to_le_bytes());
    bytes.extend_from_slice(&0x3eu16.to_le_bytes());
    bytes.extend_from_slice(&1u32.to_le_bytes());
    bytes.extend_from_slice(&0u64.to_le_bytes());
    bytes.extend_from_slice(&0u64.to_le_bytes());
    bytes.extend_from_slice(&table_offset.to_le_bytes());
    bytes.extend_from_slice(&0u32.to_le_bytes());
    bytes.extend_from_slice(&64u16.to_le_bytes());
    bytes.extend_from_slice(&0u16.to_le_bytes());
    bytes.extend_from_slice(&0u16.to_le_bytes());
    bytes.extend_from_slice(&entry_size.to_le_bytes());
    bytes.extend_from_slice(&count.to_le_bytes());
    bytes.extend_from_slice(&names.to_le_bytes());
    bytes
}

/// A file of a header, the payload bytes `payload` from offset 64 on, and a
/// table of 64-byte entries from offset 128 on.
fn object_file(payload: &[u8], entries: &[Entry], names: u16) -> Vec<u8> {
    assert!(payload.len() <= 64);
    let mut bytes = header_bytes(128, 64, entries.len() as u16, names);
    bytes.extend_from_slice(payload);
    bytes.resize(128, 0);
    for entry in entries {
        bytes.extend_from_slice(&entry_bytes(entry));
    }
    bytes
}

fn parse(bytes: Vec<u8>) -> Result<Vec<Section>, ElfError> {
    let mut source = ByteSource::new(bytes);
    let mut header = ElfHeaders::new();
    header.from_file(&mut source).unwrap();
    header.sections_from_file(&mut source)
}

fn two_sections() -> Vec<Entry> {
    vec![
        Entry {
            name: 0,
            kind: STRTAB,
            flags: 0,
            addr: 0,
            offset: 64,
            size: 6,
        },
        Entry {
            name: 1,
            kind: PROGBITS,
            flags: 0b110,
            addr: 0x40_0000,
            offset: 70,
            size: 4,
        },
    ]
}

#[test]
fn it_works() {
    let bytes = object_file(b"\0main\0\x90\x90\x90\xc3", &two_sections(), 0);
    let mut source = ByteSource::new(bytes);
    let mut headers = ElfHeaders::new();
    let result = headers.from_file(&mut source);
    assert_eq!(result, Ok(()));
    let sections = headers.sections_from_file(&mut source).unwrap();
    assert_eq!(sections.len(), headers.sheader_count as usize);
    println!("{}", headers.type_to_string());
    println!("\nSections:\n");
    for section in sections {
        println!(
            "{} {} {}",
            section.header.str_name,
            section.header.type_to_string(),
            section.header.flags_to_string()
        );
    }
}

#[test]
fn two_sections_in_table_order_with_names() {
    let sections = parse(object_file(
        b"\0main\0\x90\x90\x90\xc3",
        &two_sections(),
        0,
    ))
    .unwrap();
    assert_eq!(sections.len(), 2);
    assert_eq!(
        sections[0],
        Section {
            header: SectionHeader {
                ptr: 128,
                str_name: String::new(),
                name: 0,
                sec_type: SectionType::StringTable,
                flags: 0,
                img_addr: 0,
                offset: 64,
                size: 6,
                link: 0,
                info: 0,
                align: 0,
                entry_size: 0,
            },
            data: b"\0main\0".to_vec(),
        }
    );
    assert_eq!(
        sections[1],
        Section {
            header: SectionHeader {
                ptr: 192,
                str_name: String::from("main"),
                name: 1,
                sec_type: SectionType::ProgramData,
                flags: 0b110,
                img_addr: 0x40_0000,
                offset: 70,
                size: 4,
                link: 0,
                info: 0,
                align: 0,
                entry_size: 0,
            },
            data: vec![0x90, 0x90, 0x90, 0xc3],
        }
    );
}

#[test]
fn payload_length_is_declared_size() {
    let mut entries = two_sections();
    entries.push(Entry {
        name: 5,
        kind: 0x7000_0001,
        flags: 0,
        addr: 0,
        offset: 100,
        size: 0,
    });
    let sections = parse(object_file(b"\0main\0\x90\x90\x90\xc3", &entries, 0)).unwrap();
    assert_eq!(sections.len(), 3);
    for section in &sections {
        assert_eq!(section.data.len() as u64, section.header.size);
    }
    assert_eq!(sections[2].header.sec_type, SectionType::Unknown(0x7000_0001));
    assert_eq!(sections[2].header.str_name, "");
}

#[test]
fn nobits_section_has_no_payload() {
    let mut entries = two_sections();
    entries.push(Entry {
        name: 2,
        kind: NOBITS,
        flags: 0b011,
        addr: 0x60_0000,
        offset: 0xffff_ffff_0000,
        size: 0x1_0000_0000,
    });
    let sections = parse(object_file(b"\0main\0\x90\x90\x90\xc3", &entries, 0)).unwrap();
    assert_eq!(sections.len(), 3);
    assert_eq!(sections[2].header.sec_type, SectionType::NoBits);
    assert_eq!(sections[2].header.size, 0x1_0000_0000);
    assert!(sections[2].data.is_empty());
    assert_eq!(sections[2].header.str_name, "ain");
}

#[test]
fn empty_payload_may_lie_anywhere() {
    let mut entries = two_sections();
    entries.push(Entry {
        name: 0,
        kind: PROGBITS,
        flags: 0,
        addr: 0,
        offset: u64::MAX,
        size: 0,
    });
    let sections = parse(object_file(b"\0main\0\x90\x90\x90\xc3", &entries, 0)).unwrap();
    assert!(sections[2].data.is_empty());
}

#[test]
fn string_table_of_wrong_type_is_rejected() {
    let error = parse(object_file(
        b"\0main\0\x90\x90\x90\xc3",
        &two_sections(),
        1,
    ))
    .unwrap_err();
    assert_eq!(error.kind, ElfErrorKind::InvalidStringTable);
}

#[test]
fn string_table_index_outside_table_is_rejected() {
    let error = parse(object_file(
        b"\0main\0\x90\x90\x90\xc3",
        &two_sections(),
        2,
    ))
    .unwrap_err();
    assert_eq!(error.kind, ElfErrorKind::IndexOutOfRange);
    let error = parse(object_file(b"", &[], 0)).unwrap_err();
    assert_eq!(error.kind, ElfErrorKind::IndexOutOfRange);
}

#[test]
fn short_payload_names_its_section() {
    let mut entries = two_sections();
    entries[1].offset = 250;
    entries[1].size = 7;
    let bytes = object_file(b"\0main\0", &entries, 0);
    assert_eq!(bytes.len(), 256);
    let error = parse(bytes).unwrap_err();
    assert_eq!(error.kind, ElfErrorKind::TruncatedSection { index: 1 });
}

#[test]
fn first_short_payload_decides() {
    let mut entries = two_sections();
    entries[0].size = 1000;
    entries[1].size = 1000;
    let error = parse(object_file(b"\0main\0", &entries, 0)).unwrap_err();
    assert_eq!(error.kind, ElfErrorKind::TruncatedSection { index: 0 });
}

#[test]
fn short_payload_comes_before_string_table_check() {
    let mut entries = two_sections();
    entries[0].size = 1000;
    let error = parse(object_file(b"\0main\0", &entries, 1)).unwrap_err();
    assert_eq!(error.kind, ElfErrorKind::TruncatedSection { index: 0 });
}

#[test]
fn payload_past_the_end_is_truncated() {
    let mut entries = two_sections();
    entries[1].offset = u64::MAX;
    entries[1].size = u64::MAX;
    let error = parse(object_file(b"\0main\0", &entries, 0)).unwrap_err();
    assert_eq!(error.kind, ElfErrorKind::TruncatedSection { index: 1 });
}

#[test]
fn table_cut_short_is_io() {
    let mut bytes = object_file(b"\0main\0\x90\x90\x90\xc3", &two_sections(), 0);
    bytes.truncate(192 + 39);
    assert_eq!(parse(bytes).unwrap_err().kind, ElfErrorKind::Io);
}

#[test]
fn last_entry_needs_only_its_decoded_bytes() {
    let mut bytes = object_file(b"\0main\0\x90\x90\x90\xc3", &two_sections(), 0);
    bytes.truncate(192 + 40);
    let sections = parse(bytes).unwrap();
    assert_eq!(sections.len(), 2);
    assert_eq!(sections[1].header.str_name, "main");
}

#[test]
fn table_offset_beyond_any_file_is_io() {
    let mut bytes = header_bytes(u64::MAX, 0xffff, 3, 0);
    bytes.resize(300, 0);
    assert_eq!(parse(bytes).unwrap_err().kind, ElfErrorKind::Io);
}

#[test]
fn io_in_table_comes_before_short_payload() {
    let mut entries = two_sections();
    entries[0].size = 1000;
    let mut bytes = object_file(b"\0main\0", &entries, 0);
    bytes.truncate(200);
    assert_eq!(parse(bytes).unwrap_err().kind, ElfErrorKind::Io);
}

#[test]
fn name_without_terminator_is_invalid() {
    let mut entries = two_sections();
    entries[0].size = 5;
    let error = parse(object_file(b"\0main\0", &entries, 0)).unwrap_err();
    assert_eq!(
        error.kind,
        ElfErrorKind::InvalidString {
            partial: String::from("main")
        }
    );
}

#[test]
fn name_offset_past_string_table_is_invalid() {
    let mut entries = two_sections();
    entries[1].name = 6;
    let error = parse(object_file(b"\0main\0", &entries, 0)).unwrap_err();
    assert_eq!(
        error.kind,
        ElfErrorKind::InvalidString {
            partial: String::new()
        }
    );
}

#[test]
fn entries_overlap_where_entry_size_is_small() {
    let mut bytes = header_bytes(64, 0, 3, 0);
    bytes.extend_from_slice(&entry_bytes(&Entry {
        name: 0,
        kind: STRTAB,
        flags: 0,
        addr: 0,
        offset: 0,
        size: 64,
    }));
    let sections = parse(bytes).unwrap();
    assert_eq!(sections.len(), 3);
    for section in &sections {
        assert_eq!(section.header.ptr, 64);
        assert_eq!(section.header.sec_type, SectionType::StringTable);
        assert_eq!(section.data.len(), 64);
        assert_eq!(section.header.str_name, "\u{7f}ELF\u{2}\u{1}\u{1}");
    }
}

#[test]
fn new_entry_is_blank() {
    let entry = SectionHeader::new(0x1234);
    assert_eq!(
        entry,
        SectionHeader {
            ptr: 0x1234,
            str_name: String::new(),
            name: 0,
            sec_type: SectionType::Unknown(0),
            flags: 0,
            img_addr: 0,
            offset: 0,
            size: 0,
            link: 0,
            info: 0,
            align: 0,
            entry_size: 0,
        }
    );
}

#[test]
fn entry_is_decoded_at_its_offset() {
    let mut bytes = vec![0xaa; 10];
    bytes.extend_from_slice(&entry_bytes(&Entry {
        name: 0x0102_0304,
        kind: 2,
        flags: 0x1111_2222_3333_4444,
        addr: 0x5555_6666_7777_8888,
        offset: 0x9999_aaaa_bbbb_cccc,
        size: 0xdddd_eeee_ffff_0001,
    }));
    let mut source = ByteSource::new(bytes);
    let mut entry = SectionHeader::new(10);
    entry.str_name = String::from("kept");
    entry.link = 7;
    entry.info = 8;
    entry.align = 9;
    entry.entry_size = 10;
    assert_eq!(entry.from_file(&mut source), Ok(()));
    assert_eq!(source.stream_position(), 50);
    assert_eq!(
        entry,
        SectionHeader {
            ptr: 10,
            str_name: String::from("kept"),
            name: 0x0102_0304,
            sec_type: SectionType::SymbolTable,
            flags: 0x1111_2222_3333_4444,
            img_addr: 0x5555_6666_7777_8888,
            offset: 0x9999_aaaa_bbbb_cccc,
            size: 0xdddd_eeee_ffff_0001,
            link: 7,
            info: 8,
            align: 9,
            entry_size: 10,
        }
    );
}

#[test]
fn entry_cut_short_is_io_and_left_alone() {
    let mut source = ByteSource::new(vec![0x11; 45]);
    let mut entry = SectionHeader::new(6);
    let error = entry.from_file(&mut source).unwrap_err();
    assert_eq!(error.kind, ElfErrorKind::Io);
    assert_eq!(entry, SectionHeader::new(6));
    assert_eq!(source.stream_position(), 45);
    let mut far = SectionHeader::new(1000);
    assert_eq!(
        far.from_file(&mut source).unwrap_err().kind,
        ElfErrorKind::Io
    );
    assert_eq!(source.stream_position(), 1000);
}

#[test]
fn section_type_codes_round_trip() {
    let known = [
        SectionType::Unused,
        SectionType::ProgramData,
        SectionType::SymbolTable,
        SectionType::StringTable,
        SectionType::Rela,
        SectionType::Hash,
        SectionType::Dynamic,
        SectionType::Notes,
        SectionType::NoBits,
        SectionType::Rel,
    ];
    for (raw, section_type) in known.iter().enumerate() {
        assert_eq!(SectionType::from_raw(raw as u32), *section_type);
        assert_eq!(section_type.raw(), raw as u32);
    }
    assert_eq!(SectionType::from_raw(10), SectionType::Unknown(10));
    for raw in [10u32, 11, 0x6fff_fff6, u32::MAX] {
        assert_eq!(SectionType::from_raw(raw).raw(), raw);
    }
}

#[test]
fn section_type_names() {
    let names = [
        "Unused",
        "Program Data",
        "Linker Symbol Table",
        "String Table",
        "Relocation (RELA)",
        "Symbol Hash Table",
        "Dynamic Linking Table",
        "Notes",
        "No Space",
        "Relocation (REL)",
        "Unknown Type",
    ];
    for (raw, name) in names.iter().enumerate() {
        let mut entry = SectionHeader::new(0);
        entry.sec_type = SectionType::from_raw(raw as u32);
        assert_eq!(entry.type_to_string(), *name);
    }
}

#[test]
fn flags_are_shown_in_brackets() {
    let expected = [
        "[---]", "[--W]", "[-A-]", "[-AW]", "[X--]", "[X-W]", "[XA-]", "[XAW]",
    ];
    for (flags, text) in expected.iter().enumerate() {
        let mut entry = SectionHeader::new(0);
        entry.flags = flags as u64;
        assert_eq!(entry.flags_to_string(), *text);
        assert_eq!(entry.is_executable(), flags & 4 != 0);
        assert_eq!(entry.is_allocated(), flags & 2 != 0);
        assert_eq!(entry.is_writable(), flags & 1 != 0);
    }
    let mut entry = SectionHeader::new(0);
    entry.flags = 0xffff_ffff_ffff_fff8;
    assert_eq!(entry.flags_to_string(), "[---]");
    entry.flags = u64::MAX;
    assert_eq!(entry.flags_to_string(), "[XAW]");
}

#[test]
fn every_failure_has_its_sentence() {
    let sentence = |kind: ElfErrorKind| ElfError::new(kind).description();
    assert_eq!(
        sentence(ElfErrorKind::NotElf),
        "Invalid binary format; not an ELF file"
    );
    assert_eq!(sentence(ElfErrorKind::Io), "An IO Error occurred");
    assert_eq!(
        sentence(ElfErrorKind::InvalidStringTable),
        "String Header Table is not a string table type section"
    );
    assert_eq!(
        sentence(ElfErrorKind::IndexOutOfRange),
        "String Header Table index is out of range"
    );
    assert_eq!(
        sentence(ElfErrorKind::TruncatedSection { index: 3 }),
        "Failed to read all declared bytes of a section from the file"
    );
    assert_eq!(
        sentence(ElfErrorKind::InvalidString {
            partial: String::from("x")
        }),
        "Section name is not a terminated string"
    );
}

#[test]
fn source_stands_behind_the_last_payload_read() {
    let mut entries = two_sections();
    entries.push(Entry {
        name: 0,
        kind: NOBITS,
        flags: 0,
        addr: 0,
        offset: 10,
        size: 20,
    });
    let mut source = ByteSource::new(object_file(b"\0main\0\x90\x90\x90\xc3", &entries, 0));
    let mut header = ElfHeaders::new();
    header.from_file(&mut source).unwrap();
    assert_eq!(source.stream_position(), 64);
    let sections = header.sections_from_file(&mut source).unwrap();
    assert_eq!(sections.len(), 3);
    assert_eq!(source.stream_position(), 74);
}
