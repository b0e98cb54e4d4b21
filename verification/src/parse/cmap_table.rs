//! The `cmap` table: which glyph draws which character.

use crate::error::{ImtError, ImtErrorKind, ImtErrorSource};
use crate::parse::{
    be_i16, be_u16, be_u32, first_failure, fits, format_not_supported, in_bounds,
    lemma_first_failure_stays, malformed, malformed_in, read_i16, read_u16, read_u32, truncated,
    truncated_in, wide_offset,
};
use std::collections::BTreeMap;
use vstd::prelude::*;

verus! {

/// The `cmap` table: a version and one record per encoding.
#[derive(Debug, Clone)]
pub struct CmapTable {
    pub version: u16,
    pub encoding_records: Vec<EncodingRecord>,
}

/// One encoding of the `cmap` table, with its subtable.
#[derive(Debug, Clone)]
pub struct EncodingRecord {
    pub platform_id: u16,
    pub encoding_id: u16,
    pub subtable: CmapSubtable,
}

/// A character map of format 4: the glyph of each 16-bit character code
/// that has one, in the order of the codes.
#[derive(Debug, Clone)]
pub struct CmapSubtable {
    pub language: u16,
    pub glyph_id_map: BTreeMap<u16, u16>,
}

impl CmapSubtable {
    /// The number of segments of the subtable at `off`, its closing segment
    /// included.
    pub open spec fn seg_count(b: Seq<u8>, off: int) -> int {
        be_u16(b, off + 6) as int / 2
    }

    /// The last character code of segment `i`.
    pub open spec fn end_code(b: Seq<u8>, off: int, i: int) -> int {
        be_u16(b, off + 14 + 2 * i) as int
    }

    /// The first character code of segment `i`.
    pub open spec fn start_code(b: Seq<u8>, off: int, i: int) -> int {
        be_u16(b, off + 16 + 2 * Self::seg_count(b, off) + 2 * i) as int
    }

    /// What segment `i` adds to a glyph id.
    pub open spec fn id_delta(b: Seq<u8>, off: int, i: int) -> int {
        be_i16(b, off + 16 + 4 * Self::seg_count(b, off) + 2 * i) as int
    }

    /// Where segment `i` keeps its range offset.
    pub open spec fn range_offset_at(b: Seq<u8>, off: int, i: int) -> int {
        off + 16 + 6 * Self::seg_count(b, off) + 2 * i
    }

    /// The range offset of segment `i`: zero when the glyph ids of the
    /// segment follow from the codes alone.
    pub open spec fn id_range_offset(b: Seq<u8>, off: int, i: int) -> int {
        be_u16(b, Self::range_offset_at(b, off, i)) as int
    }

    /// The greatest end code among the segments before `i`: a segment maps
    /// only the codes above it. Before the first segment it is -1, so that
    /// the first segment maps every code it holds.
    pub open spec fn previous_end(b: Seq<u8>, off: int, i: int) -> int
        decreases i,
    {
        if i <= 0 {
            -1
        } else if Self::end_code(b, off, i - 1) > Self::previous_end(b, off, i - 1) {
            Self::end_code(b, off, i - 1)
        } else {
            Self::previous_end(b, off, i - 1)
        }
    }

    /// Whether segment `i` maps the character `code`.
    pub open spec fn covers(b: Seq<u8>, off: int, i: int, code: int) -> bool {
        &&& Self::start_code(b, off, i) <= code <= Self::end_code(b, off, i)
        &&& Self::previous_end(b, off, i) < code
    }

    /// Where the glyph id array holds the entry of `code` for segment `i`.
    /// The array follows the range offsets; counted in entries from its
    /// start, the entry is `code - start_code`, plus half the range offset,
    /// plus `i - seg_count`, the segment's own place before the array.
    pub open spec fn glyph_slot(b: Seq<u8>, off: int, i: int, code: int) -> int {
        Self::range_offset_at(b, off, Self::seg_count(b, off)) + 2 * ((code - Self::start_code(
            b,
            off,
            i,
        )) + Self::id_range_offset(b, off, i) / 2 + (i - Self::seg_count(b, off)))
    }

    /// The glyph that segment `i` gives the character `code`.
    pub open spec fn glyph_id(b: Seq<u8>, off: int, i: int, code: int) -> u16 {
        if Self::id_range_offset(b, off, i) == 0 {
            ((code + Self::id_delta(b, off, i)) % 0x1_0000) as u16
        } else {
            ((be_u16(b, Self::glyph_slot(b, off, i, code)) + Self::id_delta(b, off, i))
                % 0x1_0000) as u16
        }
    }

    /// Whether segment `i` breaks a rule: it starts after its end, or it
    /// sends a character it maps to an entry outside the data.
    pub open spec fn segment_bad(b: Seq<u8>, off: int, i: int) -> bool {
        ||| Self::start_code(b, off, i) > Self::end_code(b, off, i)
        ||| (Self::id_range_offset(b, off, i) != 0 && exists|code: int|
            Self::covers(b, off, i, code) && !fits(
                b,
                #[trigger] Self::glyph_slot(b, off, i, code),
                2,
            ))
    }

    /// The characters that segment `i` maps, each with its glyph.
    pub open spec fn segment_map(b: Seq<u8>, off: int, i: int) -> Map<u16, u16> {
        Map::new(
            |code: u16| Self::covers(b, off, i, code as int),
            |code: u16| Self::glyph_id(b, off, i, code as int),
        )
    }

    /// The characters below `upto` that segment `i` maps, each with its glyph.
    pub open spec fn segment_map_below(b: Seq<u8>, off: int, i: int, upto: int) -> Map<u16, u16> {
        Map::new(
            |code: u16| Self::covers(b, off, i, code as int) && code < upto,
            |code: u16| Self::glyph_id(b, off, i, code as int),
        )
    }

    /// The characters that the first `n` segments map.
    pub open spec fn mapping(b: Seq<u8>, off: int, n: int) -> Map<u16, u16>
        decreases n,
    {
        if n <= 0 {
            Map::empty()
        } else {
            Self::mapping(b, off, n - 1).union_prefer_right(Self::segment_map(b, off, n - 1))
        }
    }

    /// The first check that fails when a subtable is read at `off`, if any.
    /// In order: no room for the format; a format other than 4; a header cut
    /// short; no segment; segment arrays cut short; a last segment that is
    /// not 0xFFFF to 0xFFFF; a segment before the last that breaks a rule.
    pub open spec fn failure(b: Seq<u8>, off: int) -> Option<ImtError> {
        let src = ImtErrorSource::CmapSubtable;
        let last = Self::seg_count(b, off) - 1;
        if !fits(b, off, 2) {
            Some(truncated(src))
        } else if be_u16(b, off) != 4 {
            Some(format_not_supported(src))
        } else if !fits(b, off, 14) {
            Some(truncated(src))
        } else if Self::seg_count(b, off) == 0 {
            Some(malformed(src))
        } else if !fits(b, off, 16 + 8 * Self::seg_count(b, off)) {
            Some(truncated(src))
        } else if Self::start_code(b, off, last) != 0xFFFF || Self::end_code(b, off, last)
            != 0xFFFF {
            Some(malformed(src))
        } else if exists|i: int| 0 <= i < last && #[trigger] Self::segment_bad(b, off, i) {
            Some(malformed(src))
        } else {
            None
        }
    }

    /// The subtable holds what the bytes at `off` spell: the language, and
    /// the mapping of every segment but the closing one.
    pub open spec fn decodes(&self, b: Seq<u8>, off: int) -> bool {
        &&& self.language == be_u16(b, off + 4)
        &&& self.glyph_id_map@ == Self::mapping(b, off, Self::seg_count(b, off) - 1)
    }

    /// A subtable read past every offset a buffer can have is cut short.
    proof fn lemma_failure_beyond(b: Seq<u8>, off: int)
        requires
            off > b.len(),
        ensures
            Self::failure(b, off) == Some(truncated(ImtErrorSource::CmapSubtable)),
    {
    }

    /// Mapping one more character of a segment adds that character to what
    /// the segment has mapped so far.
    proof fn lemma_map_grows(b: Seq<u8>, off: int, i: int, code: int, before: Map<u16, u16>)
        requires
            0 <= code <= 0xFFFF,
            Self::covers(b, off, i, code),
        ensures
            before.union_prefer_right(Self::segment_map_below(b, off, i, code)).insert(
                code as u16,
                Self::glyph_id(b, off, i, code),
            ) == before.union_prefer_right(Self::segment_map_below(b, off, i, code + 1)),
    {
    }

    /// Finds the glyph that segment `i` gives the character `code`, or that
    /// the segment sends it to an entry outside the data. The segment starts
    /// at `start`, adds `id_delta` to its glyph ids, and has the range offset
    /// `range_offset`.
    fn glyph_for(
        bytes: &[u8],
        base_offset: usize,
        seg_count: usize,
        i: usize,
        code: u32,
        start: u32,
        id_delta: i32,
        range_offset: usize,
    ) -> (r: Result<u16, ImtError>)
        requires
            seg_count == Self::seg_count(bytes@, base_offset as int),
            fits(bytes@, base_offset as int, 16 + 8 * seg_count),
            i < seg_count,
            start == Self::start_code(bytes@, base_offset as int, i as int),
            id_delta == Self::id_delta(bytes@, base_offset as int, i as int),
            range_offset == Self::id_range_offset(bytes@, base_offset as int, i as int),
            start <= code <= 0xFFFF,
        ensures
            match r {
                Ok(glyph) => {
                    &&& glyph == Self::glyph_id(bytes@, base_offset as int, i as int, code as int)
                    &&& range_offset != 0 ==> fits(
                        bytes@,
                        Self::glyph_slot(bytes@, base_offset as int, i as int, code as int),
                        2,
                    )
                },
                Err(e) => {
                    &&& e == malformed(ImtErrorSource::CmapSubtable)
                    &&& range_offset != 0
                    &&& !fits(
                        bytes@,
                        Self::glyph_slot(bytes@, base_offset as int, i as int, code as int),
                        2,
                    )
                },
            },
    {
        let src = ImtErrorSource::CmapSubtable;
        let len: usize = bytes.len();
        let value: i32 = if range_offset == 0 {
            code as i32
        } else {
            let own_slot: usize = base_offset + 16 + seg_count * 6 + i * 2;
            let relative: usize = (range_offset / 2) * 2 + ((code - start) as usize) * 2;
            if !in_bounds(len, own_slot, relative + 2) {
                return Err(malformed_in(src));
            }
            read_u16(bytes, own_slot + relative, src)? as i32
        };
        Ok(wrap_glyph(value, id_delta))
    }

    /// Adds to `map` the characters that segment `i` maps, or finds that the
    /// segment breaks a rule. `next_code` is the first code above the
    /// segments before it.
    fn map_segment(
        bytes: &[u8],
        base_offset: usize,
        seg_count: usize,
        i: usize,
        next_code: u32,
        map: &mut BTreeMap<u16, u16>,
    ) -> (r: Result<(), ImtError>)
        requires
            seg_count == Self::seg_count(bytes@, base_offset as int),
            fits(bytes@, base_offset as int, 16 + 8 * seg_count),
            i < seg_count,
            next_code == Self::previous_end(bytes@, base_offset as int, i as int) + 1,
            next_code <= 0x1_0000,
        ensures
            match r {
                Ok(_) => {
                    &&& !Self::segment_bad(bytes@, base_offset as int, i as int)
                    &&& final(map)@ == old(map)@.union_prefer_right(
                        Self::segment_map(bytes@, base_offset as int, i as int),
                    )
                },
                Err(e) => {
                    &&& Self::segment_bad(bytes@, base_offset as int, i as int)
                    &&& e == malformed(ImtErrorSource::CmapSubtable)
                },
            },
    {
        let src = ImtErrorSource::CmapSubtable;
        let ghost b = bytes@;
        let ghost off = base_offset as int;
        let ghost seg = i as int;
        let ghost before = map@;
        assert(bytes.len() == bytes@.len());
        let start: u32 = read_u16(bytes, base_offset + 16 + seg_count * 2 + i * 2, src)? as u32;
        let end: u32 = read_u16(bytes, base_offset + 14 + i * 2, src)? as u32;
        let id_delta: i32 = read_i16(bytes, base_offset + 16 + seg_count * 4 + i * 2, src)? as i32;
        let range_offset: usize = read_u16(
            bytes,
            base_offset + 16 + seg_count * 6 + i * 2,
            src,
        )? as usize;
        if start > end {
            return Err(malformed_in(src));
        }
        let first: u32 = if start < next_code {
            next_code
        } else {
            start
        };
        let mut code: u32 = first;
        while code <= end
            invariant
                first <= code,
                code <= end + 1 || code == first,
                end <= 0xFFFF,
                start <= end,
                start <= first,
                b == bytes@,
                off == base_offset,
                seg == i,
                b.len() <= usize::MAX,
                seg_count == Self::seg_count(b, off),
                fits(b, off, 16 + 8 * seg_count),
                i < seg_count,
                start == Self::start_code(b, off, seg),
                end == Self::end_code(b, off, seg),
                id_delta == Self::id_delta(b, off, seg),
                range_offset == Self::id_range_offset(b, off, seg),
                first == Self::previous_end(b, off, seg) + 1 || (first == start
                    && Self::previous_end(b, off, seg) < start),
                range_offset != 0 ==> forall|c: int|
                    Self::covers(b, off, seg, c) && c < code ==> fits(
                        b,
                        #[trigger] Self::glyph_slot(b, off, seg, c),
                        2,
                    ),
                map@ == before.union_prefer_right(
                    Self::segment_map_below(b, off, seg, code as int),
                ),
            decreases end + 1 - code,
        {
            let glyph: u16 = match Self::glyph_for(
                bytes,
                base_offset,
                seg_count,
                i,
                code,
                start,
                id_delta,
                range_offset,
            ) {
                Ok(glyph) => glyph,
                Err(e) => {
                    return Err(e);
                },
            };
            map.insert(code as u16, glyph);
            proof {
                Self::lemma_map_grows(b, off, seg, code as int, before);
            }
            code += 1;
        }
        Ok(())
    }

    /// Reads the subtable that starts at `base_offset`.
    pub fn try_parse(bytes: &[u8], base_offset: usize) -> (r: Result<Self, ImtError>)
        ensures
            match r {
                Ok(t) => Self::failure(bytes@, base_offset as int).is_none() && t.decodes(
                    bytes@,
                    base_offset as int,
                ),
                Err(e) => Self::failure(bytes@, base_offset as int) == Some(e),
            },
    {
        let src = ImtErrorSource::CmapSubtable;
        let ghost b = bytes@;
        let ghost off = base_offset as int;
        if !in_bounds(bytes.len(), base_offset, 2) {
            return Err(truncated_in(src));
        }
        let format: u16 = read_u16(bytes, base_offset, src)?;
        if format != 4 {
            return Err(ImtError { kind: ImtErrorKind::FormatNotSupported, source: src });
        }
        if !in_bounds(bytes.len(), base_offset, 14) {
            return Err(truncated_in(src));
        }
        let language: u16 = read_u16(bytes, base_offset + 4, src)?;
        let seg_count: usize = (read_u16(bytes, base_offset + 6, src)? / 2) as usize;
        if seg_count == 0 {
            return Err(malformed_in(src));
        }
        if !in_bounds(bytes.len(), base_offset, 16 + seg_count * 8) {
            return Err(truncated_in(src));
        }
        let end_code_offset: usize = base_offset + 14;
        let start_code_offset: usize = end_code_offset + seg_count * 2 + 2;
        let last: usize = seg_count - 1;
        let last_start: u16 = read_u16(bytes, start_code_offset + last * 2, src)?;
        let last_end: u16 = read_u16(bytes, end_code_offset + last * 2, src)?;
        if last_start != 0xFFFF || last_end != 0xFFFF {
            return Err(malformed_in(src));
        }
        let mut glyph_id_map: BTreeMap<u16, u16> = BTreeMap::new();
        let mut next_code: u32 = 0;
        let mut i: usize = 0;
        while i < last
            invariant
                i <= last,
                last == seg_count - 1,
                b == bytes@,
                off == base_offset,
                seg_count == Self::seg_count(b, off),
                0 < seg_count <= 0x7FFF,
                fits(b, off, 16 + 8 * seg_count),
                b.len() <= usize::MAX,
                end_code_offset == off + 14,
                start_code_offset == off + 16 + 2 * seg_count,
                next_code == Self::previous_end(b, off, i as int) + 1,
                next_code <= 0x1_0000,
                forall|j: int| 0 <= j < i ==> !#[trigger] Self::segment_bad(b, off, j),
                glyph_id_map@ == Self::mapping(b, off, i as int),
                be_u16(b, off) == 4,
                Self::start_code(b, off, last as int) == 0xFFFF,
                Self::end_code(b, off, last as int) == 0xFFFF,
            decreases last - i,
        {
            let end: u32 = read_u16(bytes, end_code_offset + i * 2, src)? as u32;
            Self::map_segment(bytes, base_offset, seg_count, i, next_code, &mut glyph_id_map)?;
            if end >= next_code {
                next_code = end + 1;
            }
            i += 1;
        }
        Ok(CmapSubtable { language, glyph_id_map })
    }
}

impl EncodingRecord {
    /// Where the subtable of the record at `record` starts, in a table that
    /// starts at `table`.
    pub open spec fn subtable_offset(b: Seq<u8>, table: int, record: int) -> int {
        table + be_u32(b, record + 4)
    }

    /// The first check that fails when a record is read at `record`, if any:
    /// fewer than eight bytes, then what can fail for its subtable.
    pub open spec fn failure(b: Seq<u8>, table: int, record: int) -> Option<ImtError> {
        if !fits(b, record, 8) {
            Some(truncated(ImtErrorSource::EncodingRecord))
        } else {
            CmapSubtable::failure(b, Self::subtable_offset(b, table, record))
        }
    }

    /// Every field holds what the record at `record` spells.
    pub open spec fn decodes(&self, b: Seq<u8>, table: int, record: int) -> bool {
        &&& self.platform_id == be_u16(b, record)
        &&& self.encoding_id == be_u16(b, record + 2)
        &&& self.subtable.decodes(b, Self::subtable_offset(b, table, record))
    }

    /// Reads the encoding record at `base_offset` and its subtable, in a table
    /// that starts at `table_offset`.
    pub fn try_parse(bytes: &[u8], table_offset: usize, base_offset: usize) -> (r: Result<
        Self,
        ImtError,
    >)
        ensures
            match r {
                Ok(t) => Self::failure(bytes@, table_offset as int, base_offset as int).is_none()
                    && t.decodes(bytes@, table_offset as int, base_offset as int),
                Err(e) => Self::failure(bytes@, table_offset as int, base_offset as int) == Some(
                    e,
                ),
            },
    {
        let src = ImtErrorSource::EncodingRecord;
        if !in_bounds(bytes.len(), base_offset, 8) {
            return Err(truncated_in(src));
        }
        let platform_id: u16 = read_u16(bytes, base_offset, src)?;
        let encoding_id: u16 = read_u16(bytes, base_offset + 2, src)?;
        let relative: u32 = read_u32(bytes, base_offset + 4, src)?;
        let subtable_offset: usize = match wide_offset(table_offset, relative, bytes.len()) {
            Some(offset) => offset,
            None => {
                proof {
                    CmapSubtable::lemma_failure_beyond(bytes@, table_offset + relative);
                }
                return Err(truncated_in(ImtErrorSource::CmapSubtable));
            },
        };
        let subtable = CmapSubtable::try_parse(bytes, subtable_offset)?;
        Ok(Self { platform_id, encoding_id, subtable })
    }
}

/// Adds a signed delta to a 16-bit value and keeps the low 16 bits of the sum.
fn wrap_glyph(value: i32, delta: i32) -> (glyph: u16)
    requires
        0 <= value <= 0xFFFF,
        -0x8000 <= delta <= 0x7FFF,
    ensures
        glyph == ((value + delta) % 0x1_0000) as u16,
{
    let sum: i32 = value + delta;
    if sum < 0 {
        (sum + 0x1_0000) as u16
    } else if sum >= 0x1_0000 {
        (sum - 0x1_0000) as u16
    } else {
        sum as u16
    }
}

impl CmapTable {
    /// The number of encoding records of the table at `off`.
    pub open spec fn num_tables(b: Seq<u8>, off: int) -> int {
        be_u16(b, off + 2) as int
    }

    /// The failure of each encoding record, by its index.
    pub open spec fn record_failures(b: Seq<u8>, off: int) -> spec_fn(int) -> Option<ImtError> {
        |i: int| EncodingRecord::failure(b, off, off + 4 + 8 * i)
    }

    /// The first check that fails when the table is read at `off`, if any:
    /// a header cut short, records cut short, the first record that fails.
    pub open spec fn failure(b: Seq<u8>, off: int) -> Option<ImtError> {
        if !fits(b, off, 4) {
            Some(truncated(ImtErrorSource::CmapTable))
        } else if !fits(b, off + 4, 8 * Self::num_tables(b, off)) {
            Some(truncated(ImtErrorSource::CmapTable))
        } else {
            first_failure(Self::num_tables(b, off), Self::record_failures(b, off))
        }
    }

    /// Every field holds what the table at `off` spells.
    pub open spec fn decodes(&self, b: Seq<u8>, off: int) -> bool {
        &&& self.version == be_u16(b, off)
        &&& self.encoding_records@.len() == Self::num_tables(b, off)
        &&& forall|i: int|
            0 <= i < self.encoding_records@.len() ==> (
            #[trigger] self.encoding_records@[i]).decodes(b, off, off + 4 + 8 * i)
    }

    /// Reads the `cmap` table that starts at `base_offset`.
    pub fn try_parse(bytes: &[u8], base_offset: usize) -> (r: Result<Self, ImtError>)
        ensures
            match r {
                Ok(t) => Self::failure(bytes@, base_offset as int).is_none() && t.decodes(
                    bytes@,
                    base_offset as int,
                ),
                Err(e) => Self::failure(bytes@, base_offset as int) == Some(e),
            },
    {
        let src = ImtErrorSource::CmapTable;
        if !in_bounds(bytes.len(), base_offset, 4) {
            return Err(truncated_in(src));
        }
        let version: u16 = read_u16(bytes, base_offset, src)?;
        let num_tables: usize = read_u16(bytes, base_offset + 2, src)? as usize;
        let records_offset: usize = base_offset + 4;
        if !in_bounds(bytes.len(), records_offset, num_tables * 8) {
            return Err(truncated_in(src));
        }
        let ghost b = bytes@;
        let ghost off = base_offset as int;
        let ghost failures = Self::record_failures(b, off);
        let mut encoding_records: Vec<EncodingRecord> = Vec::with_capacity(num_tables);
        let mut i: usize = 0;
        while i < num_tables
            invariant
                i <= num_tables,
                b == bytes@,
                off == base_offset,
                failures == Self::record_failures(b, off),
                num_tables == Self::num_tables(b, off),
                fits(b, off, 4),
                records_offset == off + 4,
                records_offset + num_tables * 8 <= b.len() <= usize::MAX,
                first_failure(i as int, failures).is_none(),
                encoding_records@.len() == i,
                forall|j: int|
                    0 <= j < i ==> (#[trigger] encoding_records@[j]).decodes(
                        b,
                        off,
                        off + 4 + 8 * j,
                    ),
            decreases num_tables - i,
        {
            let parsed = EncodingRecord::try_parse(bytes, base_offset, records_offset + i * 8);
            match parsed {
                Ok(record) => {
                    encoding_records.push(record);
                },
                Err(e) => {
                    proof {
                        lemma_first_failure_stays(i + 1, num_tables as int, failures);
                    }
                    return Err(e);
                },
            }
            i += 1;
        }
        Ok(Self { version, encoding_records })
    }
}

} // verus!
