//! The `avar` table: how the normalized value of each axis is bent before it
//! is used.

use crate::error::{ImtError, ImtErrorKind, ImtErrorSource};
use crate::parse::{
    be_i16, be_u16, first_failure, fits, in_bounds, lemma_first_failure_stays, malformed,
    malformed_in, read_f2dot14, read_u16, truncated, truncated_in, unexpected_version, F2Dot14,
    F2DOT14_ONE,
};
use vstd::prelude::*;

verus! {

/// The `avar` table: one segment map per axis.
#[derive(Debug, Clone)]
pub struct AvarTable {
    pub major_version: u16,
    pub minor_version: u16,
    pub segment_maps: Vec<SegmentMap>,
}

/// The map of one axis: a list of breakpoints in rising order. A map without
/// breakpoints leaves the axis as it is.
#[derive(Debug, Clone)]
pub struct SegmentMap {
    pub axis_value_maps: Vec<AxisValueMap>,
}

/// One breakpoint: the normalized value `from_coord` becomes `to_coord`.
#[derive(Debug, Clone, Copy)]
pub struct AxisValueMap {
    pub from_coord: F2Dot14,
    pub to_coord: F2Dot14,
}

impl AxisValueMap {
    /// The breakpoint that the four bytes at `off` spell.
    pub open spec fn decode(b: Seq<u8>, off: int) -> AxisValueMap {
        AxisValueMap { from_coord: be_i16(b, off), to_coord: be_i16(b, off + 2) }
    }

    /// Whether the breakpoint sends `value` to itself.
    pub open spec fn fixes(self, value: int) -> bool {
        self.from_coord == value && self.to_coord == value
    }
}

impl SegmentMap {
    /// Whether the breakpoints rise strictly, on both sides.
    pub open spec fn rising(maps: Seq<AxisValueMap>) -> bool {
        forall|k: int|
            0 <= k < maps.len() - 1 ==> (#[trigger] maps[k]).from_coord < maps[k + 1].from_coord
                && maps[k].to_coord < maps[k + 1].to_coord
    }

    /// Whether a list of breakpoints is a map: it is empty, or it has at
    /// least three breakpoints, starts with -1 to -1, ends with 1 to 1,
    /// holds 0 to 0, and rises strictly on both sides.
    pub open spec fn valid(maps: Seq<AxisValueMap>) -> bool {
        maps.len() == 0 || {
            &&& maps.len() >= 3
            &&& maps[0].fixes(-F2DOT14_ONE)
            &&& maps[maps.len() - 1].fixes(F2DOT14_ONE as int)
            &&& exists|k: int| 0 <= k < maps.len() && (#[trigger] maps[k]).fixes(0)
            &&& Self::rising(maps)
        }
    }

    /// Tells whether the breakpoints form a map.
    pub fn is_valid(&self) -> (r: bool)
        ensures
            r == Self::valid(self.axis_value_maps@),
    {
        let maps = &self.axis_value_maps;
        let count: usize = maps.len();
        if count == 0 {
            return true;
        }
        if count < 3 {
            return false;
        }
        if maps[0].from_coord != -F2DOT14_ONE || maps[0].to_coord != -F2DOT14_ONE {
            return false;
        }
        if maps[count - 1].from_coord != F2DOT14_ONE || maps[count - 1].to_coord != F2DOT14_ONE {
            return false;
        }
        let mut has_zero: bool = false;
        let mut k: usize = 0;
        while k < count
            invariant
                k <= count == maps@.len(),
                maps@ == self.axis_value_maps@,
                has_zero <==> exists|j: int| 0 <= j < k && (#[trigger] maps@[j]).fixes(0),
            decreases count - k,
        {
            if maps[k].from_coord == 0 && maps[k].to_coord == 0 {
                has_zero = true;
            }
            k += 1;
        }
        if !has_zero {
            return false;
        }
        let mut k: usize = 0;
        while k < count - 1
            invariant
                k <= count - 1,
                count == maps@.len(),
                maps@ == self.axis_value_maps@,
                forall|j: int|
                    0 <= j < k ==> (#[trigger] maps@[j]).from_coord < maps@[j + 1].from_coord
                        && maps@[j].to_coord < maps@[j + 1].to_coord,
            decreases count - 1 - k,
        {
            if maps[k].from_coord >= maps[k + 1].from_coord || maps[k].to_coord >= maps[k
                + 1].to_coord {
                return false;
            }
            k += 1;
        }
        true
    }
}

impl AvarTable {
    /// The number of axes of the table at `off`.
    pub open spec fn axis_count(b: Seq<u8>, off: int) -> int {
        be_u16(b, off + 6) as int
    }

    /// Where the segment map of axis `i` starts: the first after the
    /// header, each other where the one before it ends.
    pub open spec fn map_at(b: Seq<u8>, off: int, i: int) -> int
        decreases i,
    {
        if i <= 0 {
            off + 8
        } else {
            Self::map_at(b, off, i - 1) + 2 + 4 * be_u16(b, Self::map_at(b, off, i - 1))
        }
    }

    /// The number of breakpoints of axis `i`.
    pub open spec fn map_len(b: Seq<u8>, off: int, i: int) -> int {
        be_u16(b, Self::map_at(b, off, i)) as int
    }

    /// The breakpoints of axis `i`.
    pub open spec fn map_entries(b: Seq<u8>, off: int, i: int) -> Seq<AxisValueMap> {
        Seq::new(
            Self::map_len(b, off, i) as nat,
            |k: int| AxisValueMap::decode(b, Self::map_at(b, off, i) + 2 + 4 * k),
        )
    }

    /// Whether the data ends before the segment map of each axis does.
    pub open spec fn map_failures(b: Seq<u8>, off: int) -> spec_fn(int) -> Option<ImtError> {
        |i: int|
            if !fits(b, Self::map_at(b, off, i), 2) || !fits(
                b,
                Self::map_at(b, off, i) + 2,
                4 * Self::map_len(b, off, i),
            ) {
                Some(truncated(ImtErrorSource::AvarTable))
            } else {
                None
            }
    }

    /// The first check that fails when the table is read at `off`, if any:
    /// a header cut short; a version other than 1.0; a reserved number that
    /// is not zero; a segment map cut short; and, once all are read, a list
    /// of breakpoints that is not a map.
    pub open spec fn failure(b: Seq<u8>, off: int) -> Option<ImtError> {
        let src = ImtErrorSource::AvarTable;
        if !fits(b, off, 8) {
            Some(truncated(src))
        } else if be_u16(b, off) != 1 || be_u16(b, off + 2) != 0 {
            Some(unexpected_version(src))
        } else if be_u16(b, off + 4) != 0 {
            Some(malformed(src))
        } else if first_failure(Self::axis_count(b, off), Self::map_failures(b, off)).is_some() {
            first_failure(Self::axis_count(b, off), Self::map_failures(b, off))
        } else if exists|i: int|
            0 <= i < Self::axis_count(b, off) && !SegmentMap::valid(
                #[trigger] Self::map_entries(b, off, i),
            ) {
            Some(malformed(src))
        } else {
            None
        }
    }

    /// Every field holds what the table at `off` spells.
    pub open spec fn decodes(&self, b: Seq<u8>, off: int) -> bool {
        &&& self.major_version == be_u16(b, off)
        &&& self.minor_version == be_u16(b, off + 2)
        &&& self.segment_maps@.len() == Self::axis_count(b, off)
        &&& forall|i: int|
            0 <= i < self.segment_maps@.len() ==> (#[trigger] self.segment_maps@[i]).axis_value_maps@
                == Self::map_entries(b, off, i)
    }

    /// Whether the breakpoints of every axis form a map.
    pub open spec fn wf(&self) -> bool {
        forall|i: int|
            0 <= i < self.segment_maps@.len() ==> SegmentMap::valid(
                (#[trigger] self.segment_maps@[i]).axis_value_maps@,
            )
    }

    /// Reads the `avar` table that starts at `table_offset`.
    pub fn try_parse(bytes: &[u8], table_offset: usize) -> (r: Result<Self, ImtError>)
        ensures
            match r {
                Ok(t) => {
                    &&& Self::failure(bytes@, table_offset as int).is_none()
                    &&& t.decodes(bytes@, table_offset as int)
                    &&& t.wf()
                },
                Err(e) => Self::failure(bytes@, table_offset as int) == Some(e),
            },
    {
        let src = ImtErrorSource::AvarTable;
        let len: usize = bytes.len();
        let ghost b = bytes@;
        let ghost off = table_offset as int;
        if !in_bounds(len, table_offset, 8) {
            return Err(truncated_in(src));
        }
        let major_version: u16 = read_u16(bytes, table_offset, src)?;
        let minor_version: u16 = read_u16(bytes, table_offset + 2, src)?;
        if major_version != 1 || minor_version != 0 {
            return Err(ImtError { kind: ImtErrorKind::UnexpectedVersion, source: src });
        }
        let reserved: u16 = read_u16(bytes, table_offset + 4, src)?;
        if reserved != 0 {
            return Err(malformed_in(src));
        }
        let axis_count: usize = read_u16(bytes, table_offset + 6, src)? as usize;
        let ghost failures = Self::map_failures(b, off);
        let mut segment_maps: Vec<SegmentMap> = Vec::with_capacity(axis_count);
        let mut segment_map_offset: usize = table_offset + 8;
        let mut i: usize = 0;
        while i < axis_count
            invariant
                i <= axis_count == Self::axis_count(b, off),
                b == bytes@,
                len == b.len(),
                off == table_offset,
                failures == Self::map_failures(b, off),
                first_failure(i as int, failures).is_none(),
                fits(b, off, 8),
                be_u16(b, off) == 1 && be_u16(b, off + 2) == 0 && be_u16(b, off + 4) == 0,
                segment_map_offset == Self::map_at(b, off, i as int),
                segment_map_offset <= len,
                segment_maps@.len() == i,
                forall|j: int|
                    0 <= j < i ==> (#[trigger] segment_maps@[j]).axis_value_maps@
                        == Self::map_entries(b, off, j),
            decreases axis_count - i,
        {
            if !in_bounds(len, segment_map_offset, 2) {
                proof {
                    lemma_first_failure_stays(i + 1, axis_count as int, failures);
                }
                return Err(truncated_in(ImtErrorSource::AvarTable));
            }
            let count: usize = read_u16(
                bytes,
                segment_map_offset,
                ImtErrorSource::AvarTable,
            )? as usize;
            if !in_bounds(len, segment_map_offset + 2, count * 4) {
                proof {
                    lemma_first_failure_stays(i + 1, axis_count as int, failures);
                }
                return Err(truncated_in(ImtErrorSource::AvarTable));
            }
            let mut axis_value_maps: Vec<AxisValueMap> = Vec::with_capacity(count);
            let mut k: usize = 0;
            while k < count
                invariant
                    k <= count <= 0xFFFF,
                    segment_map_offset + 2 + count * 4 <= bytes@.len() <= usize::MAX,
                    axis_value_maps@ == Seq::new(
                        k as nat,
                        |m: int| AxisValueMap::decode(bytes@, segment_map_offset + 2 + 4 * m),
                    ),
                decreases count - k,
            {
                let from_coord: F2Dot14 = read_f2dot14(
                    bytes,
                    segment_map_offset + 2 + k * 4,
                    ImtErrorSource::AvarTable,
                )?;
                let to_coord: F2Dot14 = read_f2dot14(
                    bytes,
                    segment_map_offset + 4 + k * 4,
                    ImtErrorSource::AvarTable,
                )?;
                axis_value_maps.push(AxisValueMap { from_coord, to_coord });
                k += 1;
            }
            segment_maps.push(SegmentMap { axis_value_maps });
            segment_map_offset += 2 + count * 4;
            i += 1;
        }
        let mut i: usize = 0;
        while i < axis_count
            invariant
                i <= axis_count == Self::axis_count(b, off),
                b == bytes@,
                off == table_offset,
                fits(b, off, 8),
                be_u16(b, off) == 1 && be_u16(b, off + 2) == 0 && be_u16(b, off + 4) == 0,
                first_failure(Self::axis_count(b, off), Self::map_failures(b, off)).is_none(),
                segment_maps@.len() == axis_count,
                forall|j: int|
                    0 <= j < axis_count ==> (#[trigger] segment_maps@[j]).axis_value_maps@
                        == Self::map_entries(b, off, j),
                forall|j: int|
                    0 <= j < i ==> SegmentMap::valid(#[trigger] Self::map_entries(b, off, j)),
            decreases axis_count - i,
        {
            if !segment_maps[i].is_valid() {
                return Err(malformed_in(ImtErrorSource::AvarTable));
            }
            i += 1;
        }
        Ok(Self { major_version, minor_version, segment_maps })
    }
}

} // verus!
