//! The `loca` table: where each glyph's data lies in the `glyf` table.

use crate::error::{ImtError, ImtErrorKind, ImtErrorSource};
use crate::parse::head_table::HeadTable;
use crate::parse::maxp_table::MaxpTable;
use crate::parse::{
    be_u16, be_u32, fits, format_not_supported, in_bounds, read_u16, read_u32, truncated,
    truncated_in,
};
use vstd::prelude::*;

verus! {

/// The `loca` table: one byte offset per glyph and one more that ends the
/// last glyph. Glyph `i` lies between offsets `i` and `i + 1`.
#[derive(Debug, Clone)]
pub struct LocaTable {
    pub offsets: Vec<u32>,
}

impl LocaTable {
    /// The first check that fails when the table is read at `off`, if any.
    /// `format` is the `index_to_loc_format` of the `head` table: 0 for
    /// 16-bit entries, 1 for 32-bit entries.
    pub open spec fn failure(b: Seq<u8>, off: int, format: int, num_glyphs: int) -> Option<
        ImtError,
    > {
        if format == 0 {
            if fits(b, off, 2 * (num_glyphs + 1)) {
                None
            } else {
                Some(truncated(ImtErrorSource::LocaTable))
            }
        } else if format == 1 {
            if fits(b, off, 4 * (num_glyphs + 1)) {
                None
            } else {
                Some(truncated(ImtErrorSource::LocaTable))
            }
        } else {
            Some(format_not_supported(ImtErrorSource::LocaTable))
        }
    }

    /// The offsets of a table with 16-bit entries: each entry counts pairs
    /// of bytes, so it is doubled.
    pub open spec fn short_offsets(b: Seq<u8>, off: int, num_glyphs: int) -> Seq<u32> {
        Seq::new((num_glyphs + 1) as nat, |i: int| (2 * be_u16(b, off + 2 * i)) as u32)
    }

    /// The offsets of a table with 32-bit entries.
    pub open spec fn long_offsets(b: Seq<u8>, off: int, num_glyphs: int) -> Seq<u32> {
        Seq::new((num_glyphs + 1) as nat, |i: int| be_u32(b, off + 4 * i))
    }

    /// The offsets of the table at `off`.
    pub open spec fn decoded_offsets(b: Seq<u8>, off: int, format: int, num_glyphs: int) -> Seq<
        u32,
    > {
        if format == 0 {
            Self::short_offsets(b, off, num_glyphs)
        } else {
            Self::long_offsets(b, off, num_glyphs)
        }
    }

    /// Reads the `loca` table that starts at `table_offset`, in the format that
    /// the `head` table gives and for the number of glyphs of the `maxp` table.
    pub fn try_parse(
        bytes: &[u8],
        table_offset: usize,
        head_table: &HeadTable,
        maxp_table: &MaxpTable,
    ) -> (r: Result<Self, ImtError>)
        ensures
            match r {
                Ok(t) => {
                    &&& Self::failure(
                        bytes@,
                        table_offset as int,
                        head_table.index_to_loc_format as int,
                        maxp_table.num_glyphs as int,
                    ).is_none()
                    &&& t.offsets@ == Self::decoded_offsets(
                        bytes@,
                        table_offset as int,
                        head_table.index_to_loc_format as int,
                        maxp_table.num_glyphs as int,
                    )
                },
                Err(e) => Self::failure(
                    bytes@,
                    table_offset as int,
                    head_table.index_to_loc_format as int,
                    maxp_table.num_glyphs as int,
                ) == Some(e),
            },
    {
        let src = ImtErrorSource::LocaTable;
        let num_glyphs: usize = maxp_table.num_glyphs as usize;
        let count: usize = num_glyphs + 1;
        if head_table.index_to_loc_format == 0 {
            if !in_bounds(bytes.len(), table_offset, count * 2) {
                return Err(truncated_in(src));
            }
            let mut offsets: Vec<u32> = Vec::with_capacity(count);
            let mut i: usize = 0;
            while i < count
                invariant
                    i <= count,
                    count == num_glyphs + 1,
                    table_offset + count * 2 <= bytes@.len() <= usize::MAX,
                    offsets@ == Self::short_offsets(bytes@, table_offset as int, i - 1),
                decreases count - i,
            {
                let half: u32 = read_u16(bytes, table_offset + i * 2, src)? as u32;
                offsets.push(half * 2);
                i += 1;
            }
            Ok(Self { offsets })
        } else if head_table.index_to_loc_format == 1 {
            if !in_bounds(bytes.len(), table_offset, count * 4) {
                return Err(truncated_in(src));
            }
            let mut offsets: Vec<u32> = Vec::with_capacity(count);
            let mut i: usize = 0;
            while i < count
                invariant
                    i <= count,
                    count == num_glyphs + 1,
                    table_offset + count * 4 <= bytes@.len() <= usize::MAX,
                    offsets@ == Self::long_offsets(bytes@, table_offset as int, i - 1),
                decreases count - i,
            {
                let offset: u32 = read_u32(bytes, table_offset + i * 4, src)?;
                offsets.push(offset);
                i += 1;
            }
            Ok(Self { offsets })
        } else {
            Err(ImtError { kind: ImtErrorKind::FormatNotSupported, source: src })
        }
    }
}

} // verus!
