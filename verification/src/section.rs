//! Section header table entries and sections.
//!
//! Of each table entry the first 40 bytes are decoded:
//!
//! | field | offset | width |
//! |---|---|---|
//! | name offset | 0 | 4 |
//! | type | 4 | 4 |
//! | flags | 8 | 8 |
//! | virtual address | 16 | 8 |
//! | file offset | 24 | 8 |
//! | size | 32 | 8 |
//!
//! Every integer is little-endian. What follows in an entry is not read.

use crate::error::{ElfError, ElfErrorView};
use crate::source::{field, read_count, ByteSource};
use vstd::prelude::*;
use vstd::string::StringExecFns;

verus! {

/// Type code of an unused table entry.
pub const SHT_NULL: u32 = 0;

/// Type code of program data.
pub const SHT_PROGBITS: u32 = 1;

/// Type code of a linker symbol table.
pub const SHT_SYMTAB: u32 = 2;

/// Type code of a string table.
pub const SHT_STRTAB: u32 = 3;

/// Type code of relocation entries with addends.
pub const SHT_RELA: u32 = 4;

/// Type code of a symbol hash table.
pub const SHT_HASH: u32 = 5;

/// Type code of dynamic linking information.
pub const SHT_DYN: u32 = 6;

/// Type code of notes.
pub const SHT_NOTE: u32 = 7;

/// Type code of a section that takes no space in the file.
pub const SHT_NOBITS: u32 = 8;

/// Type code of relocation entries without addends.
pub const SHT_REL: u32 = 9;

/// Flag bit of a section that is writable in memory.
pub const SHF_WRITE: u64 = 0b001;

/// Flag bit of a section that is allocated in memory.
pub const SHF_ALLOC: u64 = 0b010;

/// Flag bit of a section that holds executable instructions.
pub const SHF_EXECINSTR: u64 = 0b100;

/// The type of a section. A code that has no variant of its own is kept in
/// `Unknown`, so that every code can be given back as it was read.
#[derive(Debug, Clone, Copy, PartialEq, Eq, Structural)]
pub enum SectionType {
    Unused,
    ProgramData,
    SymbolTable,
    StringTable,
    Rela,
    Hash,
    Dynamic,
    Notes,
    NoBits,
    Rel,
    Unknown(u32),
}

impl SectionType {
    /// The section type that the code `raw` stands for.
    pub open spec fn of_raw(raw: u32) -> SectionType {
        if raw == SHT_NULL {
            SectionType::Unused
        } else if raw == SHT_PROGBITS {
            SectionType::ProgramData
        } else if raw == SHT_SYMTAB {
            SectionType::SymbolTable
        } else if raw == SHT_STRTAB {
            SectionType::StringTable
        } else if raw == SHT_RELA {
            SectionType::Rela
        } else if raw == SHT_HASH {
            SectionType::Hash
        } else if raw == SHT_DYN {
            SectionType::Dynamic
        } else if raw == SHT_NOTE {
            SectionType::Notes
        } else if raw == SHT_NOBITS {
            SectionType::NoBits
        } else if raw == SHT_REL {
            SectionType::Rel
        } else {
            SectionType::Unknown(raw)
        }
    }

    /// The code of a section type.
    pub open spec fn raw_of(self) -> u32 {
        match self {
            SectionType::Unused => SHT_NULL,
            SectionType::ProgramData => SHT_PROGBITS,
            SectionType::SymbolTable => SHT_SYMTAB,
            SectionType::StringTable => SHT_STRTAB,
            SectionType::Rela => SHT_RELA,
            SectionType::Hash => SHT_HASH,
            SectionType::Dynamic => SHT_DYN,
            SectionType::Notes => SHT_NOTE,
            SectionType::NoBits => SHT_NOBITS,
            SectionType::Rel => SHT_REL,
            SectionType::Unknown(raw) => raw,
        }
    }

    /// Every code comes back from the section type that it was mapped to.
    pub proof fn lemma_raw_round_trip(raw: u32)
        ensures
            Self::of_raw(raw).raw_of() == raw,
    {
    }

    /// Maps a code to its section type.
    pub fn from_raw(raw: u32) -> (section_type: Self)
        ensures
            section_type == Self::of_raw(raw),
            section_type.raw_of() == raw,
    {
        if raw == SHT_NULL {
            SectionType::Unused
        } else if raw == SHT_PROGBITS {
            SectionType::ProgramData
        } else if raw == SHT_SYMTAB {
            SectionType::SymbolTable
        } else if raw == SHT_STRTAB {
            SectionType::StringTable
        } else if raw == SHT_RELA {
            SectionType::Rela
        } else if raw == SHT_HASH {
            SectionType::Hash
        } else if raw == SHT_DYN {
            SectionType::Dynamic
        } else if raw == SHT_NOTE {
            SectionType::Notes
        } else if raw == SHT_NOBITS {
            SectionType::NoBits
        } else if raw == SHT_REL {
            SectionType::Rel
        } else {
            SectionType::Unknown(raw)
        }
    }

    /// The code of this section type.
    pub fn raw(&self) -> (raw: u32)
        ensures
            raw == self.raw_of(),
    {
        match self {
            SectionType::Unused => SHT_NULL,
            SectionType::ProgramData => SHT_PROGBITS,
            SectionType::SymbolTable => SHT_SYMTAB,
            SectionType::StringTable => SHT_STRTAB,
            SectionType::Rela => SHT_RELA,
            SectionType::Hash => SHT_HASH,
            SectionType::Dynamic => SHT_DYN,
            SectionType::Notes => SHT_NOTE,
            SectionType::NoBits => SHT_NOBITS,
            SectionType::Rel => SHT_REL,
            SectionType::Unknown(raw) => *raw,
        }
    }
}

/// One entry of the section header table.
#[derive(Debug, Clone, PartialEq, Eq)]
pub struct SectionHeader {
    /// The file offset that this entry is read from.
    pub ptr: u64,
    /// The name of the section; empty until names are resolved.
    pub str_name: String,
    /// Offset of the name in the payload of the string-table section.
    pub name: u32,
    pub sec_type: SectionType,
    /// Flag bits: see `SHF_WRITE`, `SHF_ALLOC` and `SHF_EXECINSTR`.
    pub flags: u64,
    /// Virtual address of the section in memory.
    pub img_addr: u64,
    /// File offset of the payload.
    pub offset: u64,
    /// Size of the section; for all types but `NoBits` the number of
    /// payload bytes in the file.
    pub size: u64,
    pub link: u32,
    pub info: u32,
    pub align: u64,
    pub entry_size: u64,
}

/// The mathematical model of a `SectionHeader`: the same fields, with the
/// name as a sequence of characters.
pub struct SectionHeaderView {
    pub ptr: u64,
    pub str_name: Seq<char>,
    pub name: u32,
    pub sec_type: SectionType,
    pub flags: u64,
    pub img_addr: u64,
    pub offset: u64,
    pub size: u64,
    pub link: u32,
    pub info: u32,
    pub align: u64,
    pub entry_size: u64,
}

impl View for SectionHeader {
    type V = SectionHeaderView;

    open spec fn view(&self) -> SectionHeaderView {
        SectionHeaderView {
            ptr: self.ptr,
            str_name: self.str_name@,
            name: self.name,
            sec_type: self.sec_type,
            flags: self.flags,
            img_addr: self.img_addr,
            offset: self.offset,
            size: self.size,
            link: self.link,
            info: self.info,
            align: self.align,
            entry_size: self.entry_size,
        }
    }
}

/// A section: its table entry and its payload.
#[derive(Debug, Clone, PartialEq, Eq)]
pub struct Section {
    pub header: SectionHeader,
    /// The bytes of the section in the file; empty for `NoBits`.
    pub data: Vec<u8>,
}

/// The mathematical model of a `Section`.
pub struct SectionView {
    pub header: SectionHeaderView,
    pub data: Seq<u8>,
}

impl View for Section {
    type V = SectionView;

    open spec fn view(&self) -> SectionView {
        SectionView { header: self.header@, data: self.data@ }
    }
}

/// The entry that nothing was read into yet: it remembers the offset
/// `location` and is zero and empty otherwise.
pub open spec fn blank_entry(location: u64) -> SectionHeaderView {
    SectionHeaderView {
        ptr: location,
        str_name: Seq::empty(),
        name: 0,
        sec_type: SectionType::Unknown(0),
        flags: 0,
        img_addr: 0,
        offset: 0,
        size: 0,
        link: 0,
        info: 0,
        align: 0,
        entry_size: 0,
    }
}

/// The entry `before` after the 40 bytes at offset `at` of `bytes` were
/// decoded into it. The fields that are not decoded stay as they were.
pub open spec fn entry_read(before: SectionHeaderView, bytes: Seq<u8>, at: int)
    -> SectionHeaderView {
    SectionHeaderView {
        name: field(bytes, at, 4) as u32,
        sec_type: SectionType::of_raw(field(bytes, at + 4, 4) as u32),
        flags: field(bytes, at + 8, 8) as u64,
        img_addr: field(bytes, at + 16, 8) as u64,
        offset: field(bytes, at + 24, 8) as u64,
        size: field(bytes, at + 32, 8) as u64,
        ..before
    }
}

/// The name of a section type.
pub open spec fn section_type_name(section_type: SectionType) -> Seq<char> {
    match section_type {
        SectionType::Unused => "Unused"@,
        SectionType::ProgramData => "Program Data"@,
        SectionType::SymbolTable => "Linker Symbol Table"@,
        SectionType::StringTable => "String Table"@,
        SectionType::Rela => "Relocation (RELA)"@,
        SectionType::Hash => "Symbol Hash Table"@,
        SectionType::Dynamic => "Dynamic Linking Table"@,
        SectionType::Notes => "Notes"@,
        SectionType::NoBits => "No Space"@,
        SectionType::Rel => "Relocation (REL)"@,
        SectionType::Unknown(_) => "Unknown Type"@,
    }
}

/// Whether all bits of `mask` are set in `flags`.
pub open spec fn has_flag(flags: u64, mask: u64) -> bool {
    flags & mask == mask
}

/// The five characters that show the flags: `X` for executable, `A` for
/// allocated and `W` for writable, in that order and in brackets, with `-`
/// in the place of a flag that is not set.
pub open spec fn flags_text(flags: u64) -> Seq<char> {
    seq![
        '[',
        if has_flag(flags, SHF_EXECINSTR) { 'X' } else { '-' },
        if has_flag(flags, SHF_ALLOC) { 'A' } else { '-' },
        if has_flag(flags, SHF_WRITE) { 'W' } else { '-' },
        ']',
    ]
}

impl SectionHeader {
    /// A blank entry that will be read from file offset `location`.
    pub fn new(location: u64) -> (header: Self)
        ensures
            header@ == blank_entry(location),
    {
        SectionHeader {
            ptr: location,
            str_name: String::new(),
            sec_type: SectionType::Unknown(0),
            name: 0,
            flags: 0,
            img_addr: 0,
            offset: 0,
            size: 0,
            link: 0,
            info: 0,
            align: 0,
            entry_size: 0,
        }
    }

    /// Seeks `f` to the offset of this entry and decodes the entry, field
    /// by field. A source that ends inside the entry is an `Io` failure,
    /// and `self` is then left as it was.
    pub fn from_file(&mut self, f: &mut ByteSource) -> (r: Result<(), ElfError>)
        ensures
            final(f).bytes() == old(f).bytes(),
            final(f).position() == old(self).ptr + read_count(
                old(f).bytes(),
                old(self).ptr as int,
                40,
            ),
            match r {
                Ok(_) => read_count(old(f).bytes(), old(self).ptr as int, 40) == 40
                    && final(self)@ == entry_read(
                    old(self)@,
                    old(f).bytes(),
                    old(self).ptr as int,
                ),
                Err(error) => read_count(old(f).bytes(), old(self).ptr as int, 40) < 40
                    && error@ == ElfErrorView::Io && *final(self) == *old(self),
            },
    {
        f.seek(self.ptr);
        let name = f.read_u32()?;
        let raw_type = f.read_u32()?;
        let flags = f.read_u64()?;
        let img_addr = f.read_u64()?;
        let offset = f.read_u64()?;
        let size = f.read_u64()?;
        self.name = name;
        self.sec_type = SectionType::from_raw(raw_type);
        self.flags = flags;
        self.img_addr = img_addr;
        self.offset = offset;
        self.size = size;
        Ok(())
    }

    /// Whether the section holds executable instructions.
    pub fn is_executable(&self) -> (set: bool)
        ensures
            set == has_flag(self.flags, SHF_EXECINSTR),
    {
        self.flags & SHF_EXECINSTR == SHF_EXECINSTR
    }

    /// Whether the section is allocated in memory.
    pub fn is_allocated(&self) -> (set: bool)
        ensures
            set == has_flag(self.flags, SHF_ALLOC),
    {
        self.flags & SHF_ALLOC == SHF_ALLOC
    }

    /// Whether the section is writable in memory.
    pub fn is_writable(&self) -> (set: bool)
        ensures
            set == has_flag(self.flags, SHF_WRITE),
    {
        self.flags & SHF_WRITE == SHF_WRITE
    }

    /// The name of the type of this section.
    pub fn type_to_string(&self) -> (name: String)
        ensures
            name@ == section_type_name(self.sec_type),
    {
        match self.sec_type {
            SectionType::Unused => String::from_str("Unused"),
            SectionType::ProgramData => String::from_str("Program Data"),
            SectionType::SymbolTable => String::from_str("Linker Symbol Table"),
            SectionType::StringTable => String::from_str("String Table"),
            SectionType::Rela => String::from_str("Relocation (RELA)"),
            SectionType::Hash => String::from_str("Symbol Hash Table"),
            SectionType::Dynamic => String::from_str("Dynamic Linking Table"),
            SectionType::Notes => String::from_str("Notes"),
            SectionType::NoBits => String::from_str("No Space"),
            SectionType::Rel => String::from_str("Relocation (REL)"),
            SectionType::Unknown(_) => String::from_str("Unknown Type"),
        }
    }

    /// The flags of this section as five characters, such as `[-AW]`.
    pub fn flags_to_string(&self) -> (text: String)
        ensures
            text@ == flags_text(self.flags),
    {
        let mut flags = String::new();
        flags.push('[');
        if self.flags & SHF_EXECINSTR == SHF_EXECINSTR {
            flags.push('X');
        } else {
            flags.push('-');
        }
        if self.flags & SHF_ALLOC == SHF_ALLOC {
            flags.push('A');
        } else {
            flags.push('-');
        }
        if self.flags & SHF_WRITE == SHF_WRITE {
            flags.push('W');
        } else {
            flags.push('-');
        }
        flags.push(']');
        assert(flags@ =~= flags_text(self.flags));
        flags
    }
}

} // verus!
