//! The `hmtx` table: the advance width and left side bearing of each glyph.

use crate::error::{ImtError, ImtErrorSource};
use crate::parse::hhea_table::HheaTable;
use crate::parse::maxp_table::MaxpTable;
use crate::parse::{
    be_i16, be_u16, fits, in_bounds, malformed, malformed_in, read_i16, read_u16, truncated,
    truncated_in,
};
use vstd::prelude::*;

verus! {

/// The `hmtx` table: one full metric for each of the first glyphs, then a
/// left side bearing alone for each glyph after them. Such a glyph has the
/// advance width of the last full metric.
#[derive(Debug, Clone)]
pub struct HmtxTable {
    pub hor_metric: Vec<HorMetric>,
    pub left_side_bearings: Vec<i16>,
}

/// The horizontal metric of one glyph.
#[derive(Debug, Clone, Copy)]
pub struct HorMetric {
    pub advance_width: u16,
    pub lsb: i16,
}

impl HorMetric {
    /// The metric that the four bytes at `off` spell.
    pub open spec fn decode(b: Seq<u8>, off: int) -> HorMetric {
        HorMetric { advance_width: be_u16(b, off), lsb: be_i16(b, off + 2) }
    }
}

impl HmtxTable {
    /// The first check that fails when the table is read at `off` for
    /// `num_glyphs` glyphs of which `num_metrics` have a full metric, if any.
    pub open spec fn failure(b: Seq<u8>, off: int, num_glyphs: int, num_metrics: int) -> Option<
        ImtError,
    > {
        if num_glyphs < num_metrics {
            Some(malformed(ImtErrorSource::HmtxTable))
        } else if !fits(b, off, 4 * num_metrics + 2 * (num_glyphs - num_metrics)) {
            Some(truncated(ImtErrorSource::HmtxTable))
        } else {
            None
        }
    }

    /// The full metrics of the table at `off`.
    pub open spec fn metrics(b: Seq<u8>, off: int, num_metrics: int) -> Seq<HorMetric> {
        Seq::new(num_metrics as nat, |i: int| HorMetric::decode(b, off + 4 * i))
    }

    /// The left side bearings that follow the full metrics.
    pub open spec fn bearings(b: Seq<u8>, off: int, num_glyphs: int, num_metrics: int) -> Seq<
        i16,
    > {
        Seq::new(
            (num_glyphs - num_metrics) as nat,
            |i: int| be_i16(b, off + 4 * num_metrics + 2 * i),
        )
    }

    /// The advance width of a glyph: that of its own metric, or of the last
    /// full metric for a glyph that has a left side bearing alone. There is
    /// none for a glyph that the table does not hold.
    pub open spec fn advance_of(&self, glyph_id: int) -> Option<u16> {
        if 0 <= glyph_id < self.hor_metric@.len() {
            Some(self.hor_metric@[glyph_id].advance_width)
        } else if 0 < self.hor_metric@.len() && glyph_id < self.hor_metric@.len()
            + self.left_side_bearings@.len() {
            Some(self.hor_metric@[self.hor_metric@.len() - 1].advance_width)
        } else {
            None
        }
    }

    /// Reads the `hmtx` table that starts at `table_offset`, for the number of
    /// glyphs of the `maxp` table and the number of full metrics of the `hhea`
    /// table.
    pub fn try_parse(
        bytes: &[u8],
        table_offset: usize,
        maxp_table: &MaxpTable,
        hhea_table: &HheaTable,
    ) -> (r: Result<Self, ImtError>)
        ensures
            match r {
                Ok(t) => {
                    &&& Self::failure(
                        bytes@,
                        table_offset as int,
                        maxp_table.num_glyphs as int,
                        hhea_table.number_of_h_metrics as int,
                    ).is_none()
                    &&& t.hor_metric@ == Self::metrics(
                        bytes@,
                        table_offset as int,
                        hhea_table.number_of_h_metrics as int,
                    )
                    &&& t.left_side_bearings@ == Self::bearings(
                        bytes@,
                        table_offset as int,
                        maxp_table.num_glyphs as int,
                        hhea_table.number_of_h_metrics as int,
                    )
                },
                Err(e) => Self::failure(
                    bytes@,
                    table_offset as int,
                    maxp_table.num_glyphs as int,
                    hhea_table.number_of_h_metrics as int,
                ) == Some(e),
            },
    {
        let src = ImtErrorSource::HmtxTable;
        if maxp_table.num_glyphs < hhea_table.number_of_h_metrics {
            return Err(malformed_in(src));
        }
        let hor_metric_len: usize = hhea_table.number_of_h_metrics as usize;
        let left_side_bearings_len: usize = maxp_table.num_glyphs as usize - hor_metric_len;
        if !in_bounds(
            bytes.len(),
            table_offset,
            hor_metric_len * 4 + left_side_bearings_len * 2,
        ) {
            return Err(truncated_in(src));
        }
        let mut hor_metric: Vec<HorMetric> = Vec::with_capacity(hor_metric_len);
        let mut i: usize = 0;
        while i < hor_metric_len
            invariant
                i <= hor_metric_len,
                table_offset + hor_metric_len * 4 + left_side_bearings_len * 2 <= bytes@.len()
                    <= usize::MAX,
                hor_metric@ == Self::metrics(bytes@, table_offset as int, i as int),
            decreases hor_metric_len - i,
        {
            let offset: usize = table_offset + i * 4;
            let advance_width: u16 = read_u16(bytes, offset, src)?;
            let lsb: i16 = read_i16(bytes, offset + 2, src)?;
            hor_metric.push(HorMetric { advance_width, lsb });
            i += 1;
        }
        let left_side_bearings_offset: usize = table_offset + hor_metric_len * 4;
        let mut left_side_bearings: Vec<i16> = Vec::with_capacity(left_side_bearings_len);
        let mut i: usize = 0;
        while i < left_side_bearings_len
            invariant
                i <= left_side_bearings_len,
                left_side_bearings_offset == table_offset + hor_metric_len * 4,
                table_offset + hor_metric_len * 4 + left_side_bearings_len * 2 <= bytes@.len()
                    <= usize::MAX,
                left_side_bearings@ == Self::bearings(
                    bytes@,
                    table_offset as int,
                    hor_metric_len + i,
                    hor_metric_len as int,
                ),
            decreases left_side_bearings_len - i,
        {
            let offset: usize = left_side_bearings_offset + i * 2;
            let lsb: i16 = read_i16(bytes, offset, src)?;
            left_side_bearings.push(lsb);
            i += 1;
        }
        Ok(Self { hor_metric, left_side_bearings })
    }

    /// The advance width of glyph `glyph_id` in font design units.
    pub fn advance_width(&self, glyph_id: u16) -> (r: Option<u16>)
        ensures
            r == self.advance_of(glyph_id as int),
    {
        let index: usize = glyph_id as usize;
        let full: usize = self.hor_metric.len();
        if index < full {
            Some(self.hor_metric[index].advance_width)
        } else if full > 0 && index - full < self.left_side_bearings.len() {
            Some(self.hor_metric[full - 1].advance_width)
        } else {
            None
        }
    }
}

} // verus!
