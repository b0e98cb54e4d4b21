//! The `maxp` table: the number of glyphs and the font's memory needs.

use crate::error::{ImtError, ImtErrorKind, ImtErrorSource};
use crate::parse::{
    be_u16, be_u32, fits, in_bounds, read_u16, read_u32, truncated, truncated_in,
    unexpected_version,
};
use vstd::prelude::*;

verus! {

/// The version number of a `maxp` table that holds the glyph count alone.
pub const MAXP_VERSION_0_5: u32 = 0x0000_5000;

/// The version number of a `maxp` table with every field.
pub const MAXP_VERSION_1_0: u32 = 0x0001_0000;

/// The `maxp` table. In a table of version 0.5 every field after
/// `num_glyphs` is zero.
#[derive(Debug, Clone, Copy)]
pub struct MaxpTable {
    pub version: u32,
    pub num_glyphs: u16,
    pub max_points: u16,
    pub max_countours: u16,
    pub max_composite_points: u16,
    pub max_composite_contours: u16,
    pub max_zones: u16,
    pub max_twilight_points: u16,
    pub max_storage: u16,
    pub max_function_defs: u16,
    pub max_instruction_defs: u16,
    pub max_stack_elements: u16,
    pub max_size_of_instructions: u16,
    pub max_component_elements: u16,
    pub max_component_depth: u16,
}

impl MaxpTable {
    /// The table of version 0.5 that the six bytes at `off` spell.
    pub open spec fn decode_short(b: Seq<u8>, off: int) -> MaxpTable {
        MaxpTable {
            version: be_u32(b, off),
            num_glyphs: be_u16(b, off + 4),
            max_points: 0,
            max_countours: 0,
            max_composite_points: 0,
            max_composite_contours: 0,
            max_zones: 0,
            max_twilight_points: 0,
            max_storage: 0,
            max_function_defs: 0,
            max_instruction_defs: 0,
            max_stack_elements: 0,
            max_size_of_instructions: 0,
            max_component_elements: 0,
            max_component_depth: 0,
        }
    }

    /// The table of version 1.0 that the 32 bytes at `off` spell.
    pub open spec fn decode_full(b: Seq<u8>, off: int) -> MaxpTable {
        MaxpTable {
            version: be_u32(b, off),
            num_glyphs: be_u16(b, off + 4),
            max_points: be_u16(b, off + 6),
            max_countours: be_u16(b, off + 8),
            max_composite_points: be_u16(b, off + 10),
            max_composite_contours: be_u16(b, off + 12),
            max_zones: be_u16(b, off + 14),
            max_twilight_points: be_u16(b, off + 16),
            max_storage: be_u16(b, off + 18),
            max_function_defs: be_u16(b, off + 20),
            max_instruction_defs: be_u16(b, off + 22),
            max_stack_elements: be_u16(b, off + 24),
            max_size_of_instructions: be_u16(b, off + 26),
            max_component_elements: be_u16(b, off + 28),
            max_component_depth: be_u16(b, off + 30),
        }
    }

    /// What parsing at `off` gives. A table needs six bytes; version 1.0
    /// needs 32; any version but 0.5 and 1.0 is refused.
    pub open spec fn parse_spec(b: Seq<u8>, off: int) -> Result<MaxpTable, ImtError> {
        if !fits(b, off, 6) {
            Err(truncated(ImtErrorSource::MaxpTable))
        } else if be_u32(b, off) == MAXP_VERSION_0_5 {
            Ok(Self::decode_short(b, off))
        } else if be_u32(b, off) == MAXP_VERSION_1_0 {
            if fits(b, off, 32) {
                Ok(Self::decode_full(b, off))
            } else {
                Err(truncated(ImtErrorSource::MaxpTable))
            }
        } else {
            Err(unexpected_version(ImtErrorSource::MaxpTable))
        }
    }

    /// Reads the `maxp` table that starts at `table_offset`.
    pub fn try_parse(bytes: &[u8], table_offset: usize) -> (r: Result<Self, ImtError>)
        ensures
            r == Self::parse_spec(bytes@, table_offset as int),
    {
        let src = ImtErrorSource::MaxpTable;
        if !in_bounds(bytes.len(), table_offset, 6) {
            return Err(truncated_in(src));
        }
        let version: u32 = read_u32(bytes, table_offset, src)?;
        let num_glyphs: u16 = read_u16(bytes, table_offset + 4, src)?;
        if version == MAXP_VERSION_0_5 {
            Ok(
                Self {
                    version,
                    num_glyphs,
                    max_points: 0,
                    max_countours: 0,
                    max_composite_points: 0,
                    max_composite_contours: 0,
                    max_zones: 0,
                    max_twilight_points: 0,
                    max_storage: 0,
                    max_function_defs: 0,
                    max_instruction_defs: 0,
                    max_stack_elements: 0,
                    max_size_of_instructions: 0,
                    max_component_elements: 0,
                    max_component_depth: 0,
                },
            )
        } else if version == MAXP_VERSION_1_0 {
            if !in_bounds(bytes.len(), table_offset, 32) {
                return Err(truncated_in(src));
            }
            Ok(
                Self {
                    version,
                    num_glyphs,
                    max_points: read_u16(bytes, table_offset + 6, src)?,
                    max_countours: read_u16(bytes, table_offset + 8, src)?,
                    max_composite_points: read_u16(bytes, table_offset + 10, src)?,
                    max_composite_contours: read_u16(bytes, table_offset + 12, src)?,
                    max_zones: read_u16(bytes, table_offset + 14, src)?,
                    max_twilight_points: read_u16(bytes, table_offset + 16, src)?,
                    max_storage: read_u16(bytes, table_offset + 18, src)?,
                    max_function_defs: read_u16(bytes, table_offset + 20, src)?,
                    max_instruction_defs: read_u16(bytes, table_offset + 22, src)?,
                    max_stack_elements: read_u16(bytes, table_offset + 24, src)?,
                    max_size_of_instructions: read_u16(bytes, table_offset + 26, src)?,
                    max_component_elements: read_u16(bytes, table_offset + 28, src)?,
                    max_component_depth: read_u16(bytes, table_offset + 30, src)?,
                },
            )
        } else {
            Err(ImtError { kind: ImtErrorKind::UnexpectedVersion, source: src })
        }
    }
}

} // verus!
