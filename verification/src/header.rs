//! The file header: the fixed 64 bytes at the start of an object file.
//!
//! | field | offset | width |
//! |---|---|---|
//! | identification block | 0 | 16 |
//! | file type | 16 | 2 |
//! | machine | 18 | 2 |
//! | version | 20 | 4 |
//! | entry address | 24 | 8 |
//! | program header table offset | 32 | 8 |
//! | section header table offset | 40 | 8 |
//! | processor flags | 48 | 4 |
//! | header size | 52 | 2 |
//! | program header entry size | 54 | 2 |
//! | program header entry count | 56 | 2 |
//! | section header entry size | 58 | 2 |
//! | section header entry count | 60 | 2 |
//! | string-table section index | 62 | 2 |
//!
//! Every integer is little-endian.

use crate::error::{ElfError, ElfErrorKind, ElfErrorView};
use crate::source::{field, read_bytes, read_count, ByteSource};
use vstd::prelude::*;
use vstd::string::StringExecFns;

verus! {

/// Code of an object file without a type.
pub const TYPE_NONE: u16 = 0;

/// Code of a relocatable file.
pub const TYPE_RELO: u16 = 1;

/// Code of an executable file.
pub const TYPE_EXEC: u16 = 2;

/// Code of a shared object file.
pub const TYPE_DYN: u16 = 3;

/// Code of a core file.
pub const TYPE_CORE: u16 = 4;

/// The kind of object file. A code that has no variant of its own is kept
/// in `Unknown`, so that every code can be given back as it was read.
#[derive(Debug, Clone, Copy, PartialEq, Eq, Structural)]
pub enum FileType {
    NoType,
    Relocatable,
    Executable,
    SharedObject,
    Core,
    Unknown(u16),
}

impl FileType {
    /// The file type that the code `raw` stands for.
    pub open spec fn of_raw(raw: u16) -> FileType {
        if raw == TYPE_NONE {
            FileType::NoType
        } else if raw == TYPE_RELO {
            FileType::Relocatable
        } else if raw == TYPE_EXEC {
            FileType::Executable
        } else if raw == TYPE_DYN {
            FileType::SharedObject
        } else if raw == TYPE_CORE {
            FileType::Core
        } else {
            FileType::Unknown(raw)
        }
    }

    /// The code of a file type.
    pub open spec fn raw_of(self) -> u16 {
        match self {
            FileType::NoType => TYPE_NONE,
            FileType::Relocatable => TYPE_RELO,
            FileType::Executable => TYPE_EXEC,
            FileType::SharedObject => TYPE_DYN,
            FileType::Core => TYPE_CORE,
            FileType::Unknown(raw) => raw,
        }
    }

    /// Every code comes back from the file type that it was mapped to.
    pub proof fn lemma_raw_round_trip(raw: u16)
        ensures
            Self::of_raw(raw).raw_of() == raw,
    {
    }

    /// Maps a code to its file type.
    pub fn from_raw(raw: u16) -> (file_type: Self)
        ensures
            file_type == Self::of_raw(raw),
            file_type.raw_of() == raw,
    {
        if raw == TYPE_NONE {
            FileType::NoType
        } else if raw == TYPE_RELO {
            FileType::Relocatable
        } else if raw == TYPE_EXEC {
            FileType::Executable
        } else if raw == TYPE_DYN {
            FileType::SharedObject
        } else if raw == TYPE_CORE {
            FileType::Core
        } else {
            FileType::Unknown(raw)
        }
    }

    /// The code of this file type.
    pub fn raw(&self) -> (raw: u16)
        ensures
            raw == self.raw_of(),
    {
        match self {
            FileType::NoType => TYPE_NONE,
            FileType::Relocatable => TYPE_RELO,
            FileType::Executable => TYPE_EXEC,
            FileType::SharedObject => TYPE_DYN,
            FileType::Core => TYPE_CORE,
            FileType::Unknown(raw) => *raw,
        }
    }
}

/// The file header of an object file.
#[derive(Debug, Clone, Copy, PartialEq, Eq)]
pub struct ElfHeaders {
    /// The identification block as it stands in the file. Its first four
    /// bytes are the signature.
    pub ident: [u8; 16],
    pub file_type: FileType,
    /// Architecture code, as read.
    pub machine: u16,
    /// Format version, as read.
    pub version: u32,
    /// Virtual address of the program entry point.
    pub entry_addr: u64,
    /// File offset of the program header table.
    pub program_offset: u64,
    /// File offset of the section header table.
    pub section_offset: u64,
    /// Processor-specific flags, as read.
    pub cpu_flags: u32,
    /// Size of this header.
    pub ehead_size: u16,
    /// Size of one program header table entry.
    pub pheader_size: u16,
    /// Number of program header table entries.
    pub pheader_count: u16,
    /// Size of one section header table entry.
    pub sheader_size: u16,
    /// Number of section header table entries.
    pub sheader_count: u16,
    /// Table index of the section that holds the section names.
    pub str_header_index: u16,
}

/// Whether `ident` begins with the signature `7F 45 4C 46`.
pub open spec fn has_magic(ident: Seq<u8>) -> bool {
    &&& ident.len() >= 4
    &&& ident[0] == 0x7f
    &&& ident[1] == 0x45
    &&& ident[2] == 0x4c
    &&& ident[3] == 0x46
}

/// The sixteen bytes at offset `at` of `bytes`.
pub open spec fn ident_at(bytes: Seq<u8>, at: int) -> [u8; 16] {
    [
        bytes[at],
        bytes[at + 1],
        bytes[at + 2],
        bytes[at + 3],
        bytes[at + 4],
        bytes[at + 5],
        bytes[at + 6],
        bytes[at + 7],
        bytes[at + 8],
        bytes[at + 9],
        bytes[at + 10],
        bytes[at + 11],
        bytes[at + 12],
        bytes[at + 13],
        bytes[at + 14],
        bytes[at + 15],
    ]
}

/// The header that the 64 bytes at offset `at` of `bytes` spell.
pub open spec fn header_at(bytes: Seq<u8>, at: int) -> ElfHeaders {
    ElfHeaders {
        ident: ident_at(bytes, at),
        file_type: FileType::of_raw(field(bytes, at + 16, 2) as u16),
        machine: field(bytes, at + 18, 2) as u16,
        version: field(bytes, at + 20, 4) as u32,
        entry_addr: field(bytes, at + 24, 8) as u64,
        program_offset: field(bytes, at + 32, 8) as u64,
        section_offset: field(bytes, at + 40, 8) as u64,
        cpu_flags: field(bytes, at + 48, 4) as u32,
        ehead_size: field(bytes, at + 52, 2) as u16,
        pheader_size: field(bytes, at + 54, 2) as u16,
        pheader_count: field(bytes, at + 56, 2) as u16,
        sheader_size: field(bytes, at + 58, 2) as u16,
        sheader_count: field(bytes, at + 60, 2) as u16,
        str_header_index: field(bytes, at + 62, 2) as u16,
    }
}

/// What reading a header at position `pos` of `bytes` comes to. The
/// identification block is read first: a source that ends inside it is an
/// `Io` failure, a block without the signature is `NotElf`. Only then are
/// the other fields read, and a source that ends inside them is an `Io`
/// failure.
pub open spec fn header_outcome(bytes: Seq<u8>, pos: int) -> Result<ElfHeaders, ElfErrorView> {
    if read_count(bytes, pos, 16) < 16 {
        Err(ElfErrorView::Io)
    } else if !has_magic(read_bytes(bytes, pos, 16)) {
        Err(ElfErrorView::NotElf)
    } else if read_count(bytes, pos, 64) < 64 {
        Err(ElfErrorView::Io)
    } else {
        Ok(header_at(bytes, pos))
    }
}

/// Where the source stands after a header was read at position `pos`:
/// behind the identification block where the signature is wrong, else
/// behind the header, or at the end of a source that ends before that.
pub open spec fn position_after_header(bytes: Seq<u8>, pos: int) -> int {
    if read_count(bytes, pos, 16) == 16 && !has_magic(read_bytes(bytes, pos, 16)) {
        pos + 16
    } else {
        pos + read_count(bytes, pos, 64)
    }
}

/// The name of a file type.
pub open spec fn file_type_name(file_type: FileType) -> Seq<char> {
    match file_type {
        FileType::NoType => "No file type"@,
        FileType::Relocatable => "Relocatable File"@,
        FileType::Executable => "Executable File"@,
        FileType::SharedObject => "Shared Object File"@,
        FileType::Core => "Core file"@,
        FileType::Unknown(_) => "Unknown/Unsupported Type"@,
    }
}

impl ElfHeaders {
    /// A header with every field zero.
    pub fn new() -> (header: Self)
        ensures
            header == (ElfHeaders {
                ident: header.ident,
                file_type: FileType::NoType,
                machine: 0,
                version: 0,
                entry_addr: 0,
                program_offset: 0,
                section_offset: 0,
                cpu_flags: 0,
                ehead_size: 0,
                pheader_size: 0,
                pheader_count: 0,
                sheader_size: 0,
                sheader_count: 0,
                str_header_index: 0,
            }),
            forall|i: int| 0 <= i < 16 ==> header.ident[i] == 0,
    {
        ElfHeaders {
            ident: [0u8; 16],
            file_type: FileType::NoType,
            machine: 0,
            version: 0,
            entry_addr: 0,
            program_offset: 0,
            section_offset: 0,
            cpu_flags: 0,
            ehead_size: 0,
            pheader_size: 0,
            pheader_count: 0,
            sheader_size: 0,
            sheader_count: 0,
            str_header_index: 0,
        }
    }

    /// The address class byte of the identification block.
    pub fn class(&self) -> (class: u8)
        ensures
            class == self.ident[4],
    {
        self.ident[4]
    }

    /// The data encoding byte of the identification block.
    pub fn data_encoding(&self) -> (encoding: u8)
        ensures
            encoding == self.ident[5],
    {
        self.ident[5]
    }

    /// The format version byte of the identification block.
    pub fn ident_version(&self) -> (version: u8)
        ensures
            version == self.ident[6],
    {
        self.ident[6]
    }

    /// The name of the file type of this header.
    pub fn type_to_string(&self) -> (name: String)
        ensures
            name@ == file_type_name(self.file_type),
    {
        match self.file_type {
            FileType::NoType => String::from_str("No file type"),
            FileType::Relocatable => String::from_str("Relocatable File"),
            FileType::Executable => String::from_str("Executable File"),
            FileType::SharedObject => String::from_str("Shared Object File"),
            FileType::Core => String::from_str("Core file"),
            FileType::Unknown(_) => String::from_str("Unknown/Unsupported Type"),
        }
    }

    /// Reads the file header at the current position of `f`, field by
    /// field and without seeking, and stores it in `self`. On failure
    /// `self` is left as it was.
    pub fn from_file(&mut self, f: &mut ByteSource) -> (r: Result<(), ElfError>)
        ensures
            final(f).bytes() == old(f).bytes(),
            final(f).position() == position_after_header(old(f).bytes(), old(f).position()),
            match header_outcome(old(f).bytes(), old(f).position()) {
                Ok(header) => r is Ok && *final(self) == header,
                Err(failure) => r is Err && r->Err_0@ == failure && *final(self) == *old(self),
            },
            r is Ok ==> has_magic(final(self).ident@),
            read_count(old(f).bytes(), old(f).position(), 16) == 16 && !has_magic(
                read_bytes(old(f).bytes(), old(f).position(), 16),
            ) ==> r is Err && r->Err_0@ == ElfErrorView::NotElf && final(f).position()
                == old(f).position() + 16,
    {
        let ghost bytes = f.bytes();
        let ghost start = f.position();
        let buffer = f.read(16);
        if buffer.len() != 16 {
            return Err(ElfError::new(ElfErrorKind::Io));
        }
        // Check that the signature marks the file as ELF before any other field is read
        if buffer[0] != 0x7f || buffer[1] != 0x45 || buffer[2] != 0x4c || buffer[3] != 0x46 {
            return Err(ElfError::new(ElfErrorKind::NotElf));
        }
        let ident: [u8; 16] = [
            buffer[0],
            buffer[1],
            buffer[2],
            buffer[3],
            buffer[4],
            buffer[5],
            buffer[6],
            buffer[7],
            buffer[8],
            buffer[9],
            buffer[10],
            buffer[11],
            buffer[12],
            buffer[13],
            buffer[14],
            buffer[15],
        ];
        let file_type = FileType::from_raw(f.read_u16()?);
        let machine = f.read_u16()?;
        let version = f.read_u32()?;
        let entry_addr = f.read_u64()?;
        let program_offset = f.read_u64()?;
        let section_offset = f.read_u64()?;
        let cpu_flags = f.read_u32()?;
        let ehead_size = f.read_u16()?;
        let pheader_size = f.read_u16()?;
        let pheader_count = f.read_u16()?;
        let sheader_size = f.read_u16()?;
        let sheader_count = f.read_u16()?;
        let str_header_index = f.read_u16()?;
        let header = ElfHeaders {
            ident,
            file_type,
            machine,
            version,
            entry_addr,
            program_offset,
            section_offset,
            cpu_flags,
            ehead_size,
            pheader_size,
            pheader_count,
            sheader_size,
            sheader_count,
            str_header_index,
        };
        proof {
            let block = bytes.subrange(start, start + 16);
            assert(buffer@ == block);
            assert(header.ident@ =~= block);
            assert(header.ident =~= ident_at(bytes, start));
        }
        *self = header;
        Ok(())
    }
}

} // verus!
