//! The `head` table: global facts about the font.

use crate::error::{ImtError, ImtErrorKind, ImtErrorSource};
use crate::parse::{
    be_i16, be_i64, be_u16, be_u32, fits, format_not_supported, in_bounds, malformed,
    malformed_in, read_i16, read_i64, read_u16, read_u32, truncated, truncated_in,
    unexpected_version,
};
use vstd::prelude::*;

verus! {

/// The number that every `head` table carries at byte 12.
pub const HEAD_MAGIC: u32 = 0x5F0F_3CF5;

/// The `head` table. `font_revision` is kept as its four bytes.
#[derive(Debug, Clone)]
pub struct HeadTable {
    pub major_version: u16,
    pub minor_version: u16,
    pub font_revision: [u8; 4],
    pub checksum_adjustment: u32,
    pub magic_number: u32,
    pub flags: u16,
    pub units_per_em: u16,
    pub created: i64,
    pub modified: i64,
    pub x_min: i16,
    pub y_min: i16,
    pub x_max: i16,
    pub y_max: i16,
    pub mac_style: u16,
    pub lowest_rec_ppem: u16,
    pub font_direction_hint: i16,
    pub index_to_loc_format: i16,
    pub glyph_data_format: i16,
}

impl HeadTable {
    /// The first check that fails when the table is read at `off`, if any:
    /// fewer than 54 bytes, a version other than 1.0, a wrong magic number,
    /// a format of the `loca` table that is neither 0, for offsets of 16
    /// bits, nor 1, for offsets of 32 bits.
    pub open spec fn failure(b: Seq<u8>, off: int) -> Option<ImtError> {
        if !fits(b, off, 54) {
            Some(truncated(ImtErrorSource::HeadTable))
        } else if be_u16(b, off) != 1 || be_u16(b, off + 2) != 0 {
            Some(unexpected_version(ImtErrorSource::HeadTable))
        } else if be_u32(b, off + 12) != HEAD_MAGIC {
            Some(malformed(ImtErrorSource::HeadTable))
        } else if be_i16(b, off + 50) != 0 && be_i16(b, off + 50) != 1 {
            Some(format_not_supported(ImtErrorSource::HeadTable))
        } else {
            None
        }
    }

    /// Every field holds what the bytes at `off` spell.
    pub open spec fn decodes(&self, b: Seq<u8>, off: int) -> bool {
        &&& self.major_version == be_u16(b, off)
        &&& self.minor_version == be_u16(b, off + 2)
        &&& self.font_revision@ == b.subrange(off + 4, off + 8)
        &&& self.checksum_adjustment == be_u32(b, off + 8)
        &&& self.magic_number == be_u32(b, off + 12)
        &&& self.flags == be_u16(b, off + 16)
        &&& self.units_per_em == be_u16(b, off + 18)
        &&& self.created == be_i64(b, off + 20)
        &&& self.modified == be_i64(b, off + 28)
        &&& self.x_min == be_i16(b, off + 36)
        &&& self.y_min == be_i16(b, off + 38)
        &&& self.x_max == be_i16(b, off + 40)
        &&& self.y_max == be_i16(b, off + 42)
        &&& self.mac_style == be_u16(b, off + 44)
        &&& self.lowest_rec_ppem == be_u16(b, off + 46)
        &&& self.font_direction_hint == be_i16(b, off + 48)
        &&& self.index_to_loc_format == be_i16(b, off + 50)
        &&& self.glyph_data_format == be_i16(b, off + 52)
    }

    /// Reads the `head` table that starts at `table_offset`.
    pub fn try_parse(bytes: &[u8], table_offset: usize) -> (r: Result<Self, ImtError>)
        ensures
            match r {
                Ok(t) => Self::failure(bytes@, table_offset as int).is_none() && t.decodes(
                    bytes@,
                    table_offset as int,
                ),
                Err(e) => Self::failure(bytes@, table_offset as int) == Some(e),
            },
    {
        let src = ImtErrorSource::HeadTable;
        if !in_bounds(bytes.len(), table_offset, 54) {
            return Err(truncated_in(src));
        }
        let major_version: u16 = read_u16(bytes, table_offset, src)?;
        let minor_version: u16 = read_u16(bytes, table_offset + 2, src)?;
        if major_version != 1 || minor_version != 0 {
            return Err(ImtError { kind: ImtErrorKind::UnexpectedVersion, source: src });
        }
        let font_revision: [u8; 4] = [
            bytes[table_offset + 4],
            bytes[table_offset + 5],
            bytes[table_offset + 6],
            bytes[table_offset + 7],
        ];
        assert(font_revision@ =~= bytes@.subrange(table_offset + 4, table_offset + 8));
        let checksum_adjustment: u32 = read_u32(bytes, table_offset + 8, src)?;
        let magic_number: u32 = read_u32(bytes, table_offset + 12, src)?;
        if magic_number != HEAD_MAGIC {
            return Err(malformed_in(src));
        }
        let flags: u16 = read_u16(bytes, table_offset + 16, src)?;
        let units_per_em: u16 = read_u16(bytes, table_offset + 18, src)?;
        let created: i64 = read_i64(bytes, table_offset + 20, src)?;
        let modified: i64 = read_i64(bytes, table_offset + 28, src)?;
        let x_min: i16 = read_i16(bytes, table_offset + 36, src)?;
        let y_min: i16 = read_i16(bytes, table_offset + 38, src)?;
        let x_max: i16 = read_i16(bytes, table_offset + 40, src)?;
        let y_max: i16 = read_i16(bytes, table_offset + 42, src)?;
        let mac_style: u16 = read_u16(bytes, table_offset + 44, src)?;
        let lowest_rec_ppem: u16 = read_u16(bytes, table_offset + 46, src)?;
        let font_direction_hint: i16 = read_i16(bytes, table_offset + 48, src)?;
        let index_to_loc_format: i16 = read_i16(bytes, table_offset + 50, src)?;
        if index_to_loc_format != 0 && index_to_loc_format != 1 {
            return Err(ImtError { kind: ImtErrorKind::FormatNotSupported, source: src });
        }
        let glyph_data_format: i16 = read_i16(bytes, table_offset + 52, src)?;
        Ok(
            Self {
                major_version,
                minor_version,
                font_revision,
                checksum_adjustment,
                magic_number,
                flags,
                units_per_em,
                created,
                modified,
                x_min,
                y_min,
                x_max,
                y_max,
                mac_style,
                lowest_rec_ppem,
                font_direction_hint,
                index_to_loc_format,
                glyph_data_format,
            },
        )
    }
}

} // verus!
