//! The table directory at the start of a font file.

use crate::error::{ImtError, ImtErrorKind, ImtErrorSource};
use crate::parse::table_tag;
use crate::parse::{be_u16, be_u32, fits, in_bounds, read_u16, read_u32, truncated};
use vstd::prelude::*;

verus! {

/// The table directory: the signature of the font and one record per table.
#[derive(Debug, Clone)]
pub struct TableDirectory {
    pub sfnt_version: u32,
    pub table_records: Vec<TableRecord>,
}

/// One record of the table directory: where a table lies in the file.
#[derive(Debug, Clone, Copy)]
pub struct TableRecord {
    pub table_tag: u32,
    pub checksum: u32,
    pub offset: u32,
    pub length: u32,
}

impl TableRecord {
    /// The record that the 16 bytes at `off` spell.
    pub open spec fn decode(b: Seq<u8>, off: int) -> TableRecord {
        TableRecord {
            table_tag: be_u32(b, off),
            checksum: be_u32(b, off + 4),
            offset: be_u32(b, off + 8),
            length: be_u32(b, off + 12),
        }
    }

    /// What parsing at `off` gives: the record, or `Truncated` when fewer
    /// than 16 bytes are left.
    pub open spec fn parse_spec(b: Seq<u8>, off: int) -> Result<TableRecord, ImtError> {
        if fits(b, off, 16) {
            Ok(Self::decode(b, off))
        } else {
            Err(truncated(ImtErrorSource::TableRecord))
        }
    }

    /// Reads the table record at `base_offset`.
    pub fn try_parse(bytes: &[u8], base_offset: usize) -> (r: Result<Self, ImtError>)
        ensures
            r == Self::parse_spec(bytes@, base_offset as int),
    {
        if !in_bounds(bytes.len(), base_offset, 16) {
            return Err(
                ImtError { kind: ImtErrorKind::Truncated, source: ImtErrorSource::TableRecord },
            );
        }
        let table_tag: u32 = read_u32(bytes, base_offset, ImtErrorSource::TableRecord)?;
        let checksum: u32 = read_u32(bytes, base_offset + 4, ImtErrorSource::TableRecord)?;
        let offset: u32 = read_u32(bytes, base_offset + 8, ImtErrorSource::TableRecord)?;
        let length: u32 = read_u32(bytes, base_offset + 12, ImtErrorSource::TableRecord)?;
        Ok(Self { table_tag, checksum, offset, length })
    }
}

impl TableDirectory {
    /// The number of table records that the header at `off` announces.
    pub open spec fn num_tables(b: Seq<u8>, off: int) -> int {
        be_u16(b, off + 4) as int
    }

    /// The first check that fails when a directory is read at `off`, if any:
    /// no room for the signature, the signature of a CFF font, any signature
    /// but that of TrueType outlines, a header cut short, and records cut
    /// short, in this order.
    pub open spec fn failure(b: Seq<u8>, off: int) -> Option<ImtError> {
        if !fits(b, off, 4) {
            Some(truncated(ImtErrorSource::TableDirectory))
        } else if be_u32(b, off) == table_tag::OTTO {
            Some(
                ImtError {
                    kind: ImtErrorKind::CFFNotSupported,
                    source: ImtErrorSource::TableDirectory,
                },
            )
        } else if be_u32(b, off) != 0x0001_0000 {
            Some(
                ImtError {
                    kind: ImtErrorKind::InvalidSfntVersion,
                    source: ImtErrorSource::TableDirectory,
                },
            )
        } else if !fits(b, off, 12) {
            Some(truncated(ImtErrorSource::TableDirectory))
        } else if !fits(b, off + 12, 16 * Self::num_tables(b, off)) {
            Some(truncated(ImtErrorSource::TableDirectory))
        } else {
            None
        }
    }

    /// The records of the directory at `off`, in file order.
    pub open spec fn records(b: Seq<u8>, off: int) -> Seq<TableRecord> {
        Seq::new(
            Self::num_tables(b, off) as nat,
            |i: int| TableRecord::decode(b, off + 12 + 16 * i),
        )
    }

    /// Reads the table directory that starts at `base_offset`.
    pub fn try_parse(bytes: &[u8], base_offset: usize) -> (r: Result<Self, ImtError>)
        ensures
            match r {
                Ok(d) => {
                    &&& Self::failure(bytes@, base_offset as int).is_none()
                    &&& d.sfnt_version == 0x0001_0000
                    &&& d.table_records@ == Self::records(bytes@, base_offset as int)
                },
                Err(e) => Self::failure(bytes@, base_offset as int) == Some(e),
            },
    {
        let sfnt_version: u32 = read_u32(bytes, base_offset, ImtErrorSource::TableDirectory)?;
        if sfnt_version == table_tag::OTTO {
            return Err(
                ImtError {
                    kind: ImtErrorKind::CFFNotSupported,
                    source: ImtErrorSource::TableDirectory,
                },
            );
        }
        if sfnt_version != 0x0001_0000 {
            return Err(
                ImtError {
                    kind: ImtErrorKind::InvalidSfntVersion,
                    source: ImtErrorSource::TableDirectory,
                },
            );
        }
        if !in_bounds(bytes.len(), base_offset, 12) {
            return Err(
                ImtError { kind: ImtErrorKind::Truncated, source: ImtErrorSource::TableDirectory },
            );
        }
        let num_tables: usize = read_u16(
            bytes,
            base_offset + 4,
            ImtErrorSource::TableDirectory,
        )? as usize;
        let records_offset: usize = base_offset + 12;
        if !in_bounds(bytes.len(), records_offset, num_tables * 16) {
            return Err(
                ImtError { kind: ImtErrorKind::Truncated, source: ImtErrorSource::TableDirectory },
            );
        }
        let mut table_records: Vec<TableRecord> = Vec::with_capacity(num_tables);
        let mut i: usize = 0;
        while i < num_tables
            invariant
                i <= num_tables,
                num_tables == Self::num_tables(bytes@, base_offset as int),
                records_offset == base_offset + 12,
                records_offset + num_tables * 16 <= bytes@.len() <= usize::MAX,
                table_records@ == Seq::new(
                    i as nat,
                    |j: int| TableRecord::decode(bytes@, base_offset + 12 + 16 * j),
                ),
            decreases num_tables - i,
        {
            let record = TableRecord::try_parse(bytes, records_offset + i * 16)?;
            table_records.push(record);
            i += 1;
        }
        Ok(Self { sfnt_version, table_records })
    }
}

} // verus!
