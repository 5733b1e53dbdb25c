//! The failures of a decode.

use vstd::prelude::*;
use vstd::string::StringExecFns;

verus! {

/// Why a decode was abandoned. Every failure ends the operation at once;
/// nothing is retried and no partial structure is handed out.
#[derive(Debug, Clone, PartialEq, Eq)]
pub enum ElfErrorKind {
    /// The identification block does not begin with the ELF signature.
    NotElf,
    /// The byte source ended inside a fixed-width field.
    Io,
    /// The section that the file header names as the section-name string
    /// table is not of string-table type.
    InvalidStringTable,
    /// The string-table section index lies outside the section table.
    IndexOutOfRange,
    /// Fewer payload bytes could be read than the section at table position
    /// `index` declares.
    TruncatedSection { index: u16 },
    /// A name starts past the end of the string table, or runs to its end
    /// without a terminator. `partial` keeps the characters that were
    /// scanned before the table ended.
    InvalidString { partial: String },
}

/// The mathematical model of a failure: as `ElfErrorKind`, with text as a
/// sequence of characters.
pub enum ElfErrorView {
    NotElf,
    Io,
    InvalidStringTable,
    IndexOutOfRange,
    TruncatedSection { index: u16 },
    InvalidString { partial: Seq<char> },
}

impl View for ElfErrorKind {
    type V = ElfErrorView;

    open spec fn view(&self) -> ElfErrorView {
        match *self {
            ElfErrorKind::NotElf => ElfErrorView::NotElf,
            ElfErrorKind::Io => ElfErrorView::Io,
            ElfErrorKind::InvalidStringTable => ElfErrorView::InvalidStringTable,
            ElfErrorKind::IndexOutOfRange => ElfErrorView::IndexOutOfRange,
            ElfErrorKind::TruncatedSection { index } => ElfErrorView::TruncatedSection { index },
            ElfErrorKind::InvalidString { partial } => ElfErrorView::InvalidString {
                partial: partial@,
            },
        }
    }
}

/// The error of every fallible operation of this crate.
#[derive(Debug, Clone, PartialEq, Eq)]
pub struct ElfError {
    pub kind: ElfErrorKind,
}

impl View for ElfError {
    type V = ElfErrorView;

    open spec fn view(&self) -> ElfErrorView {
        self.kind@
    }
}

/// The sentence that describes a failure.
pub open spec fn description_of(failure: ElfErrorView) -> Seq<char> {
    match failure {
        ElfErrorView::NotElf => "Invalid binary format; not an ELF file"@,
        ElfErrorView::Io => "An IO Error occurred"@,
        ElfErrorView::InvalidStringTable =>
            "String Header Table is not a string table type section"@,
        ElfErrorView::IndexOutOfRange => "String Header Table index is out of range"@,
        ElfErrorView::TruncatedSection { .. } =>
            "Failed to read all declared bytes of a section from the file"@,
        ElfErrorView::InvalidString { .. } => "Section name is not a terminated string"@,
    }
}

impl ElfError {
    /// The failure of the given kind.
    pub fn new(kind: ElfErrorKind) -> (error: Self)
        ensures
            error.kind == kind,
            error@ == kind@,
    {
        ElfError { kind }
    }

    /// A human-readable sentence for this failure.
    pub fn description(&self) -> (text: String)
        ensures
            text@ == description_of(self@),
    {
        match &self.kind {
            ElfErrorKind::NotElf => String::from_str("Invalid binary format; not an ELF file"),
            ElfErrorKind::Io => String::from_str("An IO Error occurred"),
            ElfErrorKind::InvalidStringTable => String::from_str(
                "String Header Table is not a string table type section",
            ),
            ElfErrorKind::IndexOutOfRange => String::from_str(
                "String Header Table index is out of range",
            ),
            ElfErrorKind::TruncatedSection { .. } => String::from_str(
                "Failed to read all declared bytes of a section from the file",
            ),
            ElfErrorKind::InvalidString { .. } => String::from_str(
                "Section name is not a terminated string",
            ),
        }
    }
}

} // verus!
