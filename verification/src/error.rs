//! Errors reported while reading font data.

use vstd::prelude::*;

verus! {

/// What went wrong while reading font data.
#[derive(Debug, Clone, Copy, PartialEq, Eq, Structural)]
pub enum ImtErrorKind {
    UnexpectedTag,
    Truncated,
    CFFNotSupported,
    InvalidSfntVersion,
    FormatNotSupported,
    Malformed,
    UnexpectedVersion,
    CollectionNotSupported,
    MissingTable,
}

/// The table or structure in which an error was found.
#[derive(Debug, Clone, Copy, PartialEq, Eq, Structural)]
pub enum ImtErrorSource {
    TTCHeader,
    TableDirectory,
    TableRecord,
    HeadTable,
    CmapTable,
    EncodingRecord,
    CmapSubtable,
    HheaTable,
    MaxpTable,
    HmtxTable,
    LocaTable,
    GlyfTable,
    FontData,
    FvarTable,
    NameTable,
    NameRecord,
    NameTagRecord,
    GvarTable,
    AvarTable,
    HvarTable,
}

/// An error: what went wrong, and where.
#[derive(Debug, Clone, Copy, PartialEq, Eq, Structural)]
pub struct ImtError {
    pub kind: ImtErrorKind,
    pub source: ImtErrorSource,
}

} // verus!
