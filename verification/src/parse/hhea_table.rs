//! The `hhea` table: horizontal layout facts.

use crate::error::{ImtError, ImtErrorKind, ImtErrorSource};
use crate::parse::{
    be_i16, be_u16, fits, in_bounds, malformed, malformed_in, read_i16, read_u16, truncated,
    truncated_in, unexpected_version,
};
use vstd::prelude::*;

verus! {

/// The `hhea` table.
#[derive(Debug, Clone, Copy)]
pub struct HheaTable {
    pub major_version: u16,
    pub minor_version: u16,
    pub ascender: i16,
    pub descender: i16,
    pub line_gap: i16,
    pub advance_width_max: u16,
    pub min_left_side_bearing: i16,
    pub min_right_side_bearing: i16,
    pub x_map_extent: i16,
    pub caret_slope_rise: i16,
    pub caret_slow_run: i16,
    pub caret_offset: i16,
    pub metric_data_format: i16,
    pub number_of_h_metrics: u16,
}

impl HheaTable {
    /// The table that the 36 bytes at `off` spell.
    pub open spec fn decode(b: Seq<u8>, off: int) -> HheaTable {
        HheaTable {
            major_version: be_u16(b, off),
            minor_version: be_u16(b, off + 2),
            ascender: be_i16(b, off + 4),
            descender: be_i16(b, off + 6),
            line_gap: be_i16(b, off + 8),
            advance_width_max: be_u16(b, off + 10),
            min_left_side_bearing: be_i16(b, off + 12),
            min_right_side_bearing: be_i16(b, off + 14),
            x_map_extent: be_i16(b, off + 16),
            caret_slope_rise: be_i16(b, off + 18),
            caret_slow_run: be_i16(b, off + 20),
            caret_offset: be_i16(b, off + 22),
            metric_data_format: be_i16(b, off + 32),
            number_of_h_metrics: be_u16(b, off + 34),
        }
    }

    /// Whether the four reserved numbers at bytes 24 to 31 are all zero.
    pub open spec fn reserved_clear(b: Seq<u8>, off: int) -> bool {
        &&& be_i16(b, off + 24) == 0
        &&& be_i16(b, off + 26) == 0
        &&& be_i16(b, off + 28) == 0
        &&& be_i16(b, off + 30) == 0
    }

    /// What parsing at `off` gives: `Truncated` for fewer than 36 bytes,
    /// `UnexpectedVersion` for any version but 1.0, `Malformed` when a
    /// reserved number is not zero, and the table otherwise.
    pub open spec fn parse_spec(b: Seq<u8>, off: int) -> Result<HheaTable, ImtError> {
        if !fits(b, off, 36) {
            Err(truncated(ImtErrorSource::HheaTable))
        } else if be_u16(b, off) != 1 || be_u16(b, off + 2) != 0 {
            Err(unexpected_version(ImtErrorSource::HheaTable))
        } else if !Self::reserved_clear(b, off) {
            Err(malformed(ImtErrorSource::HheaTable))
        } else {
            Ok(Self::decode(b, off))
        }
    }

    /// Reads the `hhea` table that starts at `table_offset`.
    pub fn try_parse(bytes: &[u8], table_offset: usize) -> (r: Result<Self, ImtError>)
        ensures
            r == Self::parse_spec(bytes@, table_offset as int),
    {
        let src = ImtErrorSource::HheaTable;
        if !in_bounds(bytes.len(), table_offset, 36) {
            return Err(truncated_in(src));
        }
        let major_version: u16 = read_u16(bytes, table_offset, src)?;
        let minor_version: u16 = read_u16(bytes, table_offset + 2, src)?;
        if major_version != 1 || minor_version != 0 {
            return Err(ImtError { kind: ImtErrorKind::UnexpectedVersion, source: src });
        }
        let ascender: i16 = read_i16(bytes, table_offset + 4, src)?;
        let descender: i16 = read_i16(bytes, table_offset + 6, src)?;
        let line_gap: i16 = read_i16(bytes, table_offset + 8, src)?;
        let advance_width_max: u16 = read_u16(bytes, table_offset + 10, src)?;
        let min_left_side_bearing: i16 = read_i16(bytes, table_offset + 12, src)?;
        let min_right_side_bearing: i16 = read_i16(bytes, table_offset + 14, src)?;
        let x_map_extent: i16 = read_i16(bytes, table_offset + 16, src)?;
        let caret_slope_rise: i16 = read_i16(bytes, table_offset + 18, src)?;
        let caret_slow_run: i16 = read_i16(bytes, table_offset + 20, src)?;
        let caret_offset: i16 = read_i16(bytes, table_offset + 22, src)?;
        let reserved_0: i16 = read_i16(bytes, table_offset + 24, src)?;
        let reserved_1: i16 = read_i16(bytes, table_offset + 26, src)?;
        let reserved_2: i16 = read_i16(bytes, table_offset + 28, src)?;
        let reserved_3: i16 = read_i16(bytes, table_offset + 30, src)?;
        if reserved_0 != 0 || reserved_1 != 0 || reserved_2 != 0 || reserved_3 != 0 {
            return Err(malformed_in(src));
        }
        let metric_data_format: i16 = read_i16(bytes, table_offset + 32, src)?;
        let number_of_h_metrics: u16 = read_u16(bytes, table_offset + 34, src)?;
        Ok(
            Self {
                major_version,
                minor_version,
                ascender,
                descender,
                line_gap,
                advance_width_max,
                min_left_side_bearing,
                min_right_side_bearing,
                x_map_extent,
                caret_slope_rise,
                caret_slow_run,
                caret_offset,
                metric_data_format,
                number_of_h_metrics,
            },
        )
    }
}

} // verus!
