//! Decoding of 64-bit little-endian ELF object files: the file header, the
//! section header table, section payloads and section names.
//!
//! An inspection starts from a `ByteSource` over the bytes of the file.
//! `ElfHeaders::from_file` reads the file header from it, and
//! `ElfHeaders::sections_from_file` then yields the sections in table
//! order, or the one failure that ended the parse.

pub mod error;
pub mod header;
pub mod section;
pub mod source;
pub mod table;
pub mod utils;

pub use error::{ElfError, ElfErrorKind};
pub use header::{ElfHeaders, FileType};
pub use section::{Section, SectionHeader, SectionType};
pub use source::ByteSource;
