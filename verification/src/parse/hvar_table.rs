//! The `HVAR` table: how the advance width of each glyph varies.

use crate::error::{ImtError, ImtErrorKind, ImtErrorSource};
use crate::parse::{
    be_i16, be_i32, be_i8, be_u16, be_u32, first_failure, fits, in_bounds, in_bounds_wide,
    lemma_first_failure_stays, malformed, malformed_in, read_f2dot14, read_i16, read_i32, read_i8,
    read_u16, read_u32, read_u8, truncated, truncated_in, unexpected_version, wide_offset,
    F2Dot14, F2DOT14_ONE,
};
use vstd::prelude::*;

verus! {

/// The `HVAR` table: a store of deltas, and for the advance width and each
/// side bearing an optional map from glyphs to deltas of the store.
#[derive(Debug, Clone)]
pub struct HvarTable {
    pub major_version: u16,
    pub minor_version: u16,
    pub item_variation_store: ItemVariationStore,
    pub advance_map: Option<DeltaSetIndexMap>,
    pub lsb_map: Option<DeltaSetIndexMap>,
    pub rsb_map: Option<DeltaSetIndexMap>,
}

/// A store of deltas: regions of the design space, and sets of deltas that
/// each name the regions they belong to.
#[derive(Debug, Clone)]
pub struct ItemVariationStore {
    pub axis_count: usize,
    pub regions: Vec<VariationRegion>,
    pub item_data: Vec<ItemVariationData>,
}

/// A region of the design space, with one entry per axis.
#[derive(Debug, Clone)]
pub struct VariationRegion {
    pub axes: Vec<RegionAxisCoordinates>,
}

/// The part of one axis that a region covers: where its effect starts, where
/// it is full, and where it ends.
#[derive(Debug, Clone, Copy)]
pub struct RegionAxisCoordinates {
    pub start: F2Dot14,
    pub peak: F2Dot14,
    pub end: F2Dot14,
}

/// The delta sets of a group of items that share their regions.
#[derive(Debug, Clone)]
pub struct ItemVariationData {
    /// For each column of the delta sets, the index of its region.
    pub region_indexes: Vec<usize>,
    /// One delta set per item.
    pub delta_sets: Vec<DeltaSet>,
}

/// The deltas of one item, one per region of its group.
#[derive(Debug, Clone)]
pub struct DeltaSet {
    pub data: Vec<DeltaData>,
}

/// One delta, kept in the width it was stored in.
#[derive(Debug, Clone, Copy)]
pub enum DeltaData {
    I8(i8),
    I16(i16),
    I32(i32),
}

/// A map from glyph ids to deltas of the store: for each entry the index of
/// a group of items, then the index of an item in the group.
#[derive(Debug, Clone)]
pub struct DeltaSetIndexMap {
    pub map_data: Vec<[usize; 2]>,
}

impl DeltaData {
    /// The delta as a number of font design units.
    pub open spec fn spec_value(&self) -> int {
        match *self {
            DeltaData::I8(v) => v as int,
            DeltaData::I16(v) => v as int,
            DeltaData::I32(v) => v as int,
        }
    }

    /// The delta as a number of font design units.
    pub fn value(&self) -> (v: i32)
        ensures
            v == self.spec_value(),
    {
        match *self {
            DeltaData::I8(v) => v as i32,
            DeltaData::I16(v) => v as i32,
            DeltaData::I32(v) => v,
        }
    }
}

impl RegionAxisCoordinates {
    /// The entry that the six bytes at `off` spell.
    pub open spec fn decode(b: Seq<u8>, off: int) -> RegionAxisCoordinates {
        RegionAxisCoordinates {
            start: be_i16(b, off),
            peak: be_i16(b, off + 2),
            end: be_i16(b, off + 4),
        }
    }

    /// Whether the entry keeps the rules: the three values lie between -1
    /// and 1 and do not fall from start to peak to end, and start and end do
    /// not lie on the other side of zero than a peak that is not zero.
    pub open spec fn valid(self) -> bool {
        &&& -F2DOT14_ONE <= self.start <= self.peak <= self.end <= F2DOT14_ONE
        &&& self.peak < 0 ==> self.end <= 0
        &&& self.peak > 0 ==> self.start >= 0
    }

    /// Tells whether the entry keeps the rules.
    pub fn is_valid(&self) -> (r: bool)
        ensures
            r == self.valid(),
    {
        if self.start < -F2DOT14_ONE || self.start > self.peak || self.peak > self.end || self.end
            > F2DOT14_ONE {
            return false;
        }
        if self.peak < 0 {
            self.end <= 0
        } else if self.peak > 0 {
            self.start >= 0
        } else {
            true
        }
    }
}

/// The layout of the delta sets of one group of items, whose data starts at
/// `at`.
pub struct ItemDataLayout {
    pub b: Seq<u8>,
    pub at: int,
}

impl ItemDataLayout {
    /// The number of items, each with its delta set.
    pub open spec fn item_count(self) -> int {
        be_u16(self.b, self.at) as int
    }

    /// Whether the deltas are stored in 32 and 16 bits rather than in 16
    /// and 8.
    pub open spec fn long_words(self) -> bool {
        be_u16(self.b, self.at + 2) & 0x8000 != 0
    }

    /// The number of columns that are stored in the wider of the two widths.
    pub open spec fn word_count(self) -> int {
        (be_u16(self.b, self.at + 2) & 0x7FFF) as int
    }

    /// The number of columns: of regions that the items refer to.
    pub open spec fn region_index_count(self) -> int {
        be_u16(self.b, self.at + 4) as int
    }

    /// The index of the region of column `k`.
    pub open spec fn region_index(self, k: int) -> int {
        be_u16(self.b, self.at + 6 + 2 * k) as int
    }

    /// Where the delta sets start.
    pub open spec fn rows_at(self) -> int {
        self.at + 6 + 2 * self.region_index_count()
    }

    /// The number of bytes of one delta set: the first `word_count` deltas
    /// take the wider of the two widths, the others the narrower.
    pub open spec fn row_size(self) -> int {
        if self.long_words() {
            4 * self.word_count() + 2 * (self.region_index_count() - self.word_count())
        } else {
            2 * self.word_count() + (self.region_index_count() - self.word_count())
        }
    }

    /// Where in its delta set the delta of column `c` starts.
    pub open spec fn column_at(self, c: int) -> int {
        if self.long_words() {
            if c < self.word_count() {
                4 * c
            } else {
                4 * self.word_count() + 2 * (c - self.word_count())
            }
        } else if c < self.word_count() {
            2 * c
        } else {
            2 * self.word_count() + (c - self.word_count())
        }
    }

    /// Where the delta set of item `r` starts.
    pub open spec fn row_at(self, r: int) -> int {
        self.rows_at() + r * self.row_size()
    }

    /// The delta of column `c` in a delta set that starts at `row`.
    pub open spec fn delta_in(self, row: int, c: int) -> DeltaData {
        let at = row + self.column_at(c);
        if c < self.word_count() {
            if self.long_words() {
                DeltaData::I32(be_i32(self.b, at))
            } else {
                DeltaData::I16(be_i16(self.b, at))
            }
        } else if self.long_words() {
            DeltaData::I16(be_i16(self.b, at))
        } else {
            DeltaData::I8(be_i8(self.b, at))
        }
    }

    /// The delta set that starts at `row`.
    pub open spec fn delta_set(self, row: int) -> Seq<DeltaData> {
        Seq::new(self.region_index_count() as nat, |c: int| self.delta_in(row, c))
    }

    /// The first check that fails when the group is read, if any, in a
    /// store with `region_count` regions: a header cut short; more wide
    /// columns than columns; region indexes cut short; an index of a region
    /// that the store does not have; delta sets cut short.
    pub open spec fn failure(self, region_count: int) -> Option<ImtError> {
        let src = ImtErrorSource::HvarTable;
        if !fits(self.b, self.at, 6) {
            Some(truncated(src))
        } else if self.word_count() > self.region_index_count() {
            Some(malformed(src))
        } else if !fits(self.b, self.at + 6, 2 * self.region_index_count()) {
            Some(truncated(src))
        } else if exists|k: int|
            0 <= k < self.region_index_count() && #[trigger] self.region_index(k) >= region_count {
            Some(malformed(src))
        } else if !fits(self.b, self.rows_at(), self.item_count() * self.row_size()) {
            Some(truncated(src))
        } else {
            None
        }
    }

    /// Whether `data` holds what the group spells.
    pub open spec fn decoded_as(self, data: ItemVariationData) -> bool {
        &&& data.region_indexes@.len() == self.region_index_count()
        &&& forall|k: int|
            0 <= k < self.region_index_count() ==> #[trigger] data.region_indexes@[k]
                == self.region_index(k)
        &&& data.delta_sets@.len() == self.item_count()
        &&& forall|r: int|
            0 <= r < self.item_count() ==> (#[trigger] data.delta_sets@[r]).data@ == self.delta_set(
                self.row_at(r),
            )
    }
}

/// Reads the delta set that starts at `row`, in the group whose data starts
/// at `at`.
fn parse_delta_set(bytes: &[u8], at: usize, row: usize) -> (r: Result<DeltaSet, ImtError>)
    requires
        fits(bytes@, at as int, 6),
        (ItemDataLayout { b: bytes@, at: at as int }).word_count() <= (ItemDataLayout {
            b: bytes@,
            at: at as int,
        }).region_index_count(),
        fits(bytes@, row as int, (ItemDataLayout { b: bytes@, at: at as int }).row_size()),
    ensures
        r is Ok,
        r.unwrap().data@ == (ItemDataLayout { b: bytes@, at: at as int }).delta_set(row as int),
{
    let src = ImtErrorSource::HvarTable;
    let ghost layout = ItemDataLayout { b: bytes@, at: at as int };
    let len: usize = bytes.len();
    let word_field: u16 = read_u16(bytes, at + 2, src)?;
    let long_words: bool = word_field & 0x8000 != 0;
    let word_count: usize = (word_field & 0x7FFF) as usize;
    let column_count: usize = read_u16(bytes, at + 4, src)? as usize;
    let mut data: Vec<DeltaData> = Vec::with_capacity(column_count);
    let mut cursor: usize = row;
    let mut c: usize = 0;
    while c < column_count
        invariant
            c <= column_count == layout.region_index_count(),
            layout == (ItemDataLayout { b: bytes@, at: at as int }),
            long_words == layout.long_words(),
            word_count == layout.word_count(),
            word_count <= column_count <= 0xFFFF,
            cursor == row + layout.column_at(c as int),
            row + layout.row_size() <= bytes@.len() <= usize::MAX,
            data@ == Seq::new(c as nat, |k: int| layout.delta_in(row as int, k)),
        decreases column_count - c,
    {
        let delta = if c < word_count {
            if long_words {
                let v: i32 = read_i32(bytes, cursor, ImtErrorSource::HvarTable)?;
                cursor += 4;
                DeltaData::I32(v)
            } else {
                let v: i16 = read_i16(bytes, cursor, ImtErrorSource::HvarTable)?;
                cursor += 2;
                DeltaData::I16(v)
            }
        } else if long_words {
            let v: i16 = read_i16(bytes, cursor, ImtErrorSource::HvarTable)?;
            cursor += 2;
            DeltaData::I16(v)
        } else {
            let v: i8 = read_i8(bytes, cursor, ImtErrorSource::HvarTable)?;
            cursor += 1;
            DeltaData::I8(v)
        };
        data.push(delta);
        c += 1;
    }
    Ok(DeltaSet { data })
}

/// Reads the group of items whose data starts at `at`, in a store with
/// `region_count` regions.
fn parse_item_data(bytes: &[u8], at: usize, region_count: usize) -> (r: Result<
    ItemVariationData,
    ImtError,
>)
    ensures
        match r {
            Ok(data) => {
                &&& (ItemDataLayout { b: bytes@, at: at as int }).failure(
                    region_count as int,
                ).is_none()
                &&& (ItemDataLayout { b: bytes@, at: at as int }).decoded_as(data)
                &&& data.wf(region_count as int)
            },
            Err(e) => (ItemDataLayout { b: bytes@, at: at as int }).failure(region_count as int)
                == Some(e),
        },
{
    let src = ImtErrorSource::HvarTable;
    let ghost layout = ItemDataLayout { b: bytes@, at: at as int };
    let len: usize = bytes.len();
    if !in_bounds(len, at, 6) {
        return Err(truncated_in(src));
    }
    let item_count: usize = read_u16(bytes, at, src)? as usize;
    let word_field: u16 = read_u16(bytes, at + 2, src)?;
    let long_words: bool = word_field & 0x8000 != 0;
    let word_count: usize = (word_field & 0x7FFF) as usize;
    let column_count: usize = read_u16(bytes, at + 4, src)? as usize;
    if word_count > column_count {
        return Err(malformed_in(src));
    }
    if !in_bounds(len, at + 6, column_count * 2) {
        return Err(truncated_in(src));
    }
    let mut region_indexes: Vec<usize> = Vec::with_capacity(column_count);
    let mut k: usize = 0;
    while k < column_count
        invariant
            k <= column_count == layout.region_index_count(),
            layout == (ItemDataLayout { b: bytes@, at: at as int }),
            at + 6 + column_count * 2 <= bytes@.len() <= usize::MAX,
            region_indexes@.len() == k,
            forall|j: int| 0 <= j < k ==> #[trigger] region_indexes@[j] == layout.region_index(j),
        decreases column_count - k,
    {
        let index: usize = read_u16(bytes, at + 6 + k * 2, ImtErrorSource::HvarTable)? as usize;
        region_indexes.push(index);
        k += 1;
    }
    let mut k: usize = 0;
    while k < column_count
        invariant
            k <= column_count == layout.region_index_count(),
            layout == (ItemDataLayout { b: bytes@, at: at as int }),
            fits(bytes@, at as int, 6),
            layout.word_count() <= layout.region_index_count(),
            fits(bytes@, at + 6, 2 * layout.region_index_count()),
            region_indexes@.len() == column_count,
            forall|j: int|
                0 <= j < column_count ==> #[trigger] region_indexes@[j] == layout.region_index(j),
            forall|j: int| 0 <= j < k ==> #[trigger] layout.region_index(j) < region_count,
        decreases column_count - k,
    {
        if region_indexes[k] >= region_count {
            return Err(malformed_in(ImtErrorSource::HvarTable));
        }
        k += 1;
    }
    let rows_at: usize = at + 6 + column_count * 2;
    let row_size: usize = if long_words {
        4 * word_count + 2 * (column_count - word_count)
    } else {
        2 * word_count + (column_count - word_count)
    };
    assert(item_count * row_size <= 0xFFFF * 0x4_0000) by (nonlinear_arith)
        requires
            item_count <= 0xFFFF,
            row_size <= 0x4_0000,
    ;
    if !in_bounds_wide(len, rows_at, item_count as u64 * row_size as u64) {
        return Err(truncated_in(src));
    }
    let mut delta_sets: Vec<DeltaSet> = Vec::with_capacity(item_count);
    let mut row: usize = rows_at;
    let mut r: usize = 0;
    while r < item_count
        invariant
            r <= item_count == layout.item_count(),
            layout == (ItemDataLayout { b: bytes@, at: at as int }),
            fits(bytes@, at as int, 6),
            layout.word_count() <= layout.region_index_count(),
            column_count == layout.region_index_count(),
            rows_at == layout.rows_at(),
            row_size == layout.row_size(),
            row == layout.row_at(r as int),
            rows_at + item_count * row_size <= bytes@.len() <= usize::MAX,
            delta_sets@.len() == r,
            forall|j: int|
                0 <= j < r ==> (#[trigger] delta_sets@[j]).data@ == layout.delta_set(
                    layout.row_at(j),
                ),
        decreases item_count - r,
    {
        assert(row + row_size <= rows_at + item_count * row_size && (r + 1) * row_size == r
            * row_size + row_size) by (nonlinear_arith)
            requires
                row == rows_at + r * row_size,
                r < item_count,
        ;
        let delta_set = match parse_delta_set(bytes, at, row) {
            Ok(delta_set) => delta_set,
            Err(e) => {
                return Err(e);
            },
        };
        delta_sets.push(delta_set);
        row += row_size;
        r += 1;
    }
    let data = ItemVariationData { region_indexes, delta_sets };
    Ok(data)
}

impl ItemVariationData {
    /// Whether the group fits a store with `region_count` regions: each of
    /// its columns names a region of the store, and each of its delta sets
    /// has one delta per column.
    pub open spec fn wf(&self, region_count: int) -> bool {
        &&& forall|k: int|
            0 <= k < self.region_indexes@.len() ==> #[trigger] self.region_indexes@[k]
                < region_count
        &&& forall|r: int|
            0 <= r < self.delta_sets@.len() ==> (#[trigger] self.delta_sets@[r]).data@.len()
                == self.region_indexes@.len()
    }
}

impl VariationRegion {
    /// Whether every entry of a region keeps the rules.
    pub open spec fn axes_valid(axes: Seq<RegionAxisCoordinates>) -> bool {
        forall|a: int| 0 <= a < axes.len() ==> (#[trigger] axes[a]).valid()
    }

    /// Tells whether every entry of the region keeps the rules.
    pub fn is_valid(&self) -> (r: bool)
        ensures
            r == Self::axes_valid(self.axes@),
    {
        let mut a: usize = 0;
        while a < self.axes.len()
            invariant
                a <= self.axes@.len(),
                forall|j: int| 0 <= j < a ==> (#[trigger] self.axes@[j]).valid(),
            decreases self.axes@.len() - a,
        {
            if !self.axes[a].is_valid() {
                return false;
            }
            a += 1;
        }
        true
    }
}

impl ItemVariationStore {
    /// The number of groups of items of the store at `off`.
    pub open spec fn item_data_count(b: Seq<u8>, off: int) -> int {
        be_u16(b, off + 6) as int
    }

    /// Where the list of regions starts.
    pub open spec fn region_list_at(b: Seq<u8>, off: int) -> int {
        off + be_u32(b, off + 2)
    }

    /// The number of axes of each region.
    pub open spec fn region_axis_count(b: Seq<u8>, off: int) -> int {
        be_u16(b, Self::region_list_at(b, off)) as int
    }

    /// The number of regions.
    pub open spec fn region_count(b: Seq<u8>, off: int) -> int {
        be_u16(b, Self::region_list_at(b, off) + 2) as int
    }

    /// Where region `r` starts.
    pub open spec fn region_at(b: Seq<u8>, off: int, r: int) -> int {
        Self::region_list_at(b, off) + 4 + r * (6 * Self::region_axis_count(b, off))
    }

    /// The entries of the region that starts at `at`.
    pub open spec fn region_axes(b: Seq<u8>, off: int, at: int) -> Seq<RegionAxisCoordinates> {
        Seq::new(
            Self::region_axis_count(b, off) as nat,
            |a: int| RegionAxisCoordinates::decode(b, at + 6 * a),
        )
    }

    /// Where the data of group `d` starts.
    pub open spec fn item_data_at(b: Seq<u8>, off: int, d: int) -> int {
        off + be_u32(b, off + 8 + 4 * d)
    }

    /// The layout of group `d`.
    pub open spec fn item_layout(b: Seq<u8>, off: int, d: int) -> ItemDataLayout {
        ItemDataLayout { b, at: Self::item_data_at(b, off, d) }
    }

    /// The failure of each group of items, by its index.
    pub open spec fn item_failures(b: Seq<u8>, off: int) -> spec_fn(int) -> Option<ImtError> {
        |d: int| Self::item_layout(b, off, d).failure(Self::region_count(b, off))
    }

    /// The first check that fails when a store is read at `off`, if any: a
    /// header cut short; a format other than 1; the offsets of the groups
    /// cut short; the head of the region list cut short; regions cut short;
    /// a region with an entry that breaks the rules; the first group that
    /// fails.
    pub open spec fn failure(b: Seq<u8>, off: int) -> Option<ImtError> {
        let src = ImtErrorSource::HvarTable;
        if !fits(b, off, 8) {
            Some(truncated(src))
        } else if be_u16(b, off) != 1 {
            Some(malformed(src))
        } else if !fits(b, off + 8, 4 * Self::item_data_count(b, off)) {
            Some(truncated(src))
        } else if !fits(b, Self::region_list_at(b, off), 4) {
            Some(truncated(src))
        } else if !fits(
            b,
            Self::region_list_at(b, off) + 4,
            Self::region_count(b, off) * (6 * Self::region_axis_count(b, off)),
        ) {
            Some(truncated(src))
        } else if exists|r: int|
            0 <= r < Self::region_count(b, off) && !VariationRegion::axes_valid(
                Self::region_axes(b, off, #[trigger] Self::region_at(b, off, r)),
            ) {
            Some(malformed(src))
        } else {
            first_failure(Self::item_data_count(b, off), Self::item_failures(b, off))
        }
    }

    /// Every field holds what the store at `off` spells.
    pub open spec fn decodes(&self, b: Seq<u8>, off: int) -> bool {
        &&& self.axis_count == Self::region_axis_count(b, off)
        &&& self.regions@.len() == Self::region_count(b, off)
        &&& forall|r: int|
            0 <= r < self.regions@.len() ==> (#[trigger] self.regions@[r]).axes@
                == Self::region_axes(b, off, Self::region_at(b, off, r))
        &&& self.item_data@.len() == Self::item_data_count(b, off)
        &&& forall|d: int|
            0 <= d < self.item_data@.len() ==> Self::item_layout(b, off, d).decoded_as(
                #[trigger] self.item_data@[d],
            )
    }

    /// Whether the parts of the store fit together: every region has one
    /// entry per axis, every such entry keeps the rules, and every group of
    /// items fits the regions.
    pub open spec fn wf(&self) -> bool {
        &&& forall|r: int|
            0 <= r < self.regions@.len() ==> (#[trigger] self.regions@[r]).axes@.len()
                == self.axis_count && VariationRegion::axes_valid(self.regions@[r].axes@)
        &&& forall|d: int|
            0 <= d < self.item_data@.len() ==> (#[trigger] self.item_data@[d]).wf(
                self.regions@.len() as int,
            )
    }

    /// Reads the entries of the region that starts at `at`.
    fn parse_region(bytes: &[u8], at: usize, axis_count: usize) -> (r: Result<
        VariationRegion,
        ImtError,
    >)
        requires
            fits(bytes@, at as int, 6 * axis_count),
            axis_count <= 0xFFFF,
        ensures
            r is Ok,
            r.unwrap().axes@ == Seq::new(
                axis_count as nat,
                |a: int| RegionAxisCoordinates::decode(bytes@, at + 6 * a),
            ),
    {
        let len: usize = bytes.len();
        let mut axes: Vec<RegionAxisCoordinates> = Vec::with_capacity(axis_count);
        let mut a: usize = 0;
        while a < axis_count
            invariant
                a <= axis_count <= 0xFFFF,
                at + 6 * axis_count <= bytes@.len() <= usize::MAX,
                axes@ == Seq::new(
                    a as nat,
                    |j: int| RegionAxisCoordinates::decode(bytes@, at + 6 * j),
                ),
            decreases axis_count - a,
        {
            let axis_offset: usize = at + a * 6;
            let start: F2Dot14 = read_f2dot14(bytes, axis_offset, ImtErrorSource::HvarTable)?;
            let peak: F2Dot14 = read_f2dot14(bytes, axis_offset + 2, ImtErrorSource::HvarTable)?;
            let end: F2Dot14 = read_f2dot14(bytes, axis_offset + 4, ImtErrorSource::HvarTable)?;
            axes.push(RegionAxisCoordinates { start, peak, end });
            a += 1;
        }
        Ok(VariationRegion { axes })
    }

    /// Reads the store of deltas that starts at `table_offset`.
    pub fn try_parse(bytes: &[u8], table_offset: usize) -> (r: Result<Self, ImtError>)
        ensures
            match r {
                Ok(t) => {
                    &&& Self::failure(bytes@, table_offset as int).is_none()
                    &&& t.decodes(bytes@, table_offset as int)
                    &&& t.wf()
                },
                Err(e) => Self::failure(bytes@, table_offset as int) == Some(e),
            },
    {
        let src = ImtErrorSource::HvarTable;
        let len: usize = bytes.len();
        let ghost b = bytes@;
        let ghost off = table_offset as int;
        if !in_bounds(len, table_offset, 8) {
            return Err(truncated_in(src));
        }
        let format: u16 = read_u16(bytes, table_offset, src)?;
        let region_list_relative: u32 = read_u32(bytes, table_offset + 2, src)?;
        let item_data_count: usize = read_u16(bytes, table_offset + 6, src)? as usize;
        if format != 1 {
            return Err(malformed_in(src));
        }
        if !in_bounds(len, table_offset + 8, item_data_count * 4) {
            return Err(truncated_in(src));
        }
        let region_list_at: usize = match wide_offset(table_offset, region_list_relative, len) {
            Some(at) => at,
            None => {
                return Err(truncated_in(src));
            },
        };
        if !in_bounds(len, region_list_at, 4) {
            return Err(truncated_in(src));
        }
        let axis_count: usize = read_u16(bytes, region_list_at, src)? as usize;
        let region_count: usize = read_u16(bytes, region_list_at + 2, src)? as usize;
        let region_size: usize = axis_count * 6;
        assert(region_count * region_size <= 0xFFFF * 0x6_0000) by (nonlinear_arith)
            requires
                region_count <= 0xFFFF,
                region_size <= 0x6_0000,
        ;
        if !in_bounds_wide(len, region_list_at + 4, region_count as u64 * region_size as u64) {
            return Err(truncated_in(src));
        }
        let mut regions: Vec<VariationRegion> = Vec::with_capacity(region_count);
        let mut at: usize = region_list_at + 4;
        let mut r: usize = 0;
        while r < region_count
            invariant
                r <= region_count == Self::region_count(b, off),
                b == bytes@,
                axis_count == Self::region_axis_count(b, off),
                region_size == 6 * axis_count,
                region_list_at == Self::region_list_at(b, off),
                at == Self::region_at(b, off, r as int),
                region_list_at + 4 + region_count * region_size <= b.len() <= usize::MAX,
                regions@.len() == r,
                forall|j: int|
                    0 <= j < r ==> (#[trigger] regions@[j]).axes@ == Self::region_axes(
                        b,
                        off,
                        Self::region_at(b, off, j),
                    ),
            decreases region_count - r,
        {
            assert(at + region_size <= region_list_at + 4 + region_count * region_size && (r + 1)
                * region_size == r * region_size + region_size) by (nonlinear_arith)
                requires
                    at == region_list_at + 4 + r * region_size,
                    r < region_count,
            ;
            let region = match Self::parse_region(bytes, at, axis_count) {
                Ok(region) => region,
                Err(e) => {
                    return Err(e);
                },
            };
            regions.push(region);
            at += region_size;
            r += 1;
        }
        let mut r: usize = 0;
        while r < region_count
            invariant
                r <= region_count == Self::region_count(b, off),
                b == bytes@,
                off == table_offset,
                fits(b, off, 8),
                be_u16(b, off) == 1,
                fits(b, off + 8, 4 * Self::item_data_count(b, off)),
                fits(b, Self::region_list_at(b, off), 4),
                fits(
                    b,
                    Self::region_list_at(b, off) + 4,
                    Self::region_count(b, off) * (6 * Self::region_axis_count(b, off)),
                ),
                regions@.len() == region_count,
                forall|j: int|
                    0 <= j < region_count ==> (#[trigger] regions@[j]).axes@ == Self::region_axes(
                        b,
                        off,
                        Self::region_at(b, off, j),
                    ),
                forall|j: int|
                    0 <= j < r ==> VariationRegion::axes_valid(
                        Self::region_axes(b, off, #[trigger] Self::region_at(b, off, j)),
                    ),
            decreases region_count - r,
        {
            if !regions[r].is_valid() {
                return Err(malformed_in(ImtErrorSource::HvarTable));
            }
            r += 1;
        }
        let ghost failures = Self::item_failures(b, off);
        let mut item_data: Vec<ItemVariationData> = Vec::with_capacity(item_data_count);
        let mut d: usize = 0;
        while d < item_data_count
            invariant
                d <= item_data_count == Self::item_data_count(b, off),
                b == bytes@,
                len == b.len(),
                off == table_offset,
                fits(b, off, 8),
                be_u16(b, off) == 1,
                fits(b, off + 8, 4 * Self::item_data_count(b, off)),
                fits(b, Self::region_list_at(b, off), 4),
                fits(
                    b,
                    Self::region_list_at(b, off) + 4,
                    Self::region_count(b, off) * (6 * Self::region_axis_count(b, off)),
                ),
                forall|j: int|
                    0 <= j < Self::region_count(b, off) ==> VariationRegion::axes_valid(
                        Self::region_axes(b, off, #[trigger] Self::region_at(b, off, j)),
                    ),
                region_count == Self::region_count(b, off),
                failures == Self::item_failures(b, off),
                first_failure(d as int, failures).is_none(),
                item_data@.len() == d,
                forall|j: int|
                    0 <= j < d ==> Self::item_layout(b, off, j).decoded_as(
                        #[trigger] item_data@[j],
                    ) && item_data@[j].wf(region_count as int),
            decreases item_data_count - d,
        {
            let relative: u32 = read_u32(
                bytes,
                table_offset + 8 + d * 4,
                ImtErrorSource::HvarTable,
            )?;
            let parsed = match wide_offset(table_offset, relative, len) {
                Some(at) => parse_item_data(bytes, at, region_count),
                None => Err(truncated_in(ImtErrorSource::HvarTable)),
            };
            match parsed {
                Ok(data) => {
                    item_data.push(data);
                },
                Err(e) => {
                    proof {
                        lemma_first_failure_stays(d + 1, item_data_count as int, failures);
                    }
                    return Err(e);
                },
            }
            d += 1;
        }
        let store = ItemVariationStore { axis_count, regions, item_data };
        Ok(store)
    }
}

/// The unsigned big-endian number that the `size` bytes at `at` spell, for a
/// size from 1 to 4.
pub open spec fn be_uint(b: Seq<u8>, at: int, size: int) -> u32 {
    if size == 1 {
        b[at] as u32
    } else if size == 2 {
        be_u16(b, at) as u32
    } else if size == 3 {
        (be_u16(b, at) as int * 0x100 + b[at + 2] as int) as u32
    } else {
        be_u32(b, at)
    }
}

/// Reads the unsigned big-endian number that the `size` bytes at `at` spell.
fn read_uint(bytes: &[u8], at: usize, size: usize) -> (r: Result<u32, ImtError>)
    requires
        1 <= size <= 4,
        fits(bytes@, at as int, size as int),
    ensures
        r == Ok::<u32, ImtError>(be_uint(bytes@, at as int, size as int)),
{
    let src = ImtErrorSource::HvarTable;
    let len: usize = bytes.len();
    if size == 1 {
        Ok(read_u8(bytes, at, src)? as u32)
    } else if size == 2 {
        Ok(read_u16(bytes, at, src)? as u32)
    } else if size == 3 {
        let high: u32 = read_u16(bytes, at, src)? as u32;
        let low: u32 = read_u8(bytes, at + 2, src)? as u32;
        Ok(high * 0x100 + low)
    } else {
        read_u32(bytes, at, src)
    }
}

impl DeltaSetIndexMap {
    /// The number of bytes of the header: 4 in format 0, 6 in format 1.
    pub open spec fn header_size(b: Seq<u8>, off: int) -> int {
        if b[off] == 0 {
            4
        } else {
            6
        }
    }

    /// The number of entries: a 16-bit number in format 0, a 32-bit number
    /// in format 1.
    pub open spec fn map_count(b: Seq<u8>, off: int) -> int {
        if b[off] == 0 {
            be_u16(b, off + 2) as int
        } else {
            be_u32(b, off + 2) as int
        }
    }

    /// The number of bytes of each entry, from 1 to 4.
    pub open spec fn entry_size(b: Seq<u8>, off: int) -> int {
        (((b[off + 1] & 0x30) >> 4) + 1) as int
    }

    /// The number of low bits of an entry that hold the inner index, from 1
    /// to 16.
    pub open spec fn inner_bits(b: Seq<u8>, off: int) -> u32 {
        ((b[off + 1] & 0x0F) + 1) as u32
    }

    /// The number that entry `i` holds. The entries follow the header.
    pub open spec fn entry(b: Seq<u8>, off: int, i: int) -> u32 {
        be_uint(
            b,
            off + Self::header_size(b, off) + i * Self::entry_size(b, off),
            Self::entry_size(b, off),
        )
    }

    /// The outer index of an entry: the bits above the inner index.
    pub open spec fn outer_of(value: u32, inner_bits: u32) -> u32 {
        value >> inner_bits
    }

    /// The inner index of an entry: its low bits.
    pub open spec fn inner_of(value: u32, inner_bits: u32) -> u32 {
        value & (((1u32 << inner_bits) - 1) as u32)
    }

    /// The first check that fails when a map is read at `off`, if any: no
    /// room for format and entry format; a header cut short; a format other
    /// than 0 and 1; entries cut short.
    pub open spec fn failure(b: Seq<u8>, off: int) -> Option<ImtError> {
        let src = ImtErrorSource::HvarTable;
        if !fits(b, off, 2) {
            Some(truncated(src))
        } else if b[off] != 0 && b[off] != 1 {
            Some(malformed(src))
        } else if !fits(b, off, Self::header_size(b, off)) {
            Some(truncated(src))
        } else if !fits(
            b,
            off + Self::header_size(b, off),
            Self::map_count(b, off) * Self::entry_size(b, off),
        ) {
            Some(truncated(src))
        } else {
            None
        }
    }

    /// Every entry holds the outer and the inner index that the map at
    /// `off` spells for it.
    pub open spec fn decodes(&self, b: Seq<u8>, off: int) -> bool {
        &&& self.map_data@.len() == Self::map_count(b, off)
        &&& forall|i: int|
            0 <= i < self.map_data@.len() ==> {
                &&& (#[trigger] self.map_data@[i])@[0] == Self::outer_of(
                    Self::entry(b, off, i),
                    Self::inner_bits(b, off),
                )
                &&& self.map_data@[i]@[1] == Self::inner_of(
                    Self::entry(b, off, i),
                    Self::inner_bits(b, off),
                )
            }
    }

    /// Reads the map that starts at `map_offset`.
    pub fn try_parse(bytes: &[u8], map_offset: usize) -> (r: Result<Self, ImtError>)
        ensures
            match r {
                Ok(t) => Self::failure(bytes@, map_offset as int).is_none() && t.decodes(
                    bytes@,
                    map_offset as int,
                ),
                Err(e) => Self::failure(bytes@, map_offset as int) == Some(e),
            },
    {
        let src = ImtErrorSource::HvarTable;
        let len: usize = bytes.len();
        let ghost b = bytes@;
        let ghost off = map_offset as int;
        if !in_bounds(len, map_offset, 2) {
            return Err(truncated_in(src));
        }
        let format: u8 = read_u8(bytes, map_offset, src)?;
        let entry_format: u8 = read_u8(bytes, map_offset + 1, src)?;
        if format != 0 && format != 1 {
            return Err(malformed_in(src));
        }
        let header_size: usize = if format == 0 {
            4
        } else {
            6
        };
        if !in_bounds(len, map_offset, header_size) {
            return Err(truncated_in(src));
        }
        let map_count: u32 = if format == 0 {
            read_u16(bytes, map_offset + 2, src)? as u32
        } else {
            read_u32(bytes, map_offset + 2, src)?
        };
        assert(((entry_format & 0x30) >> 4) <= 3) by (bit_vector);
        assert((entry_format & 0x0F) <= 15) by (bit_vector);
        let entry_size: usize = (((entry_format & 0x30) >> 4) + 1) as usize;
        let inner_bits: u32 = ((entry_format & 0x0F) + 1) as u32;
        assert(map_count * entry_size <= 0xFFFF_FFFF * 4) by (nonlinear_arith)
            requires
                map_count <= 0xFFFF_FFFF,
                entry_size <= 4,
        ;
        if !in_bounds_wide(len, map_offset + header_size, map_count as u64 * entry_size as u64) {
            return Err(truncated_in(src));
        }
        let count: usize = map_count as usize;
        assert((1u32 << inner_bits) >= 1) by (bit_vector)
            requires
                inner_bits <= 16,
        ;
        let mask: u32 = (1u32 << inner_bits) - 1;
        let entries_at: usize = map_offset + header_size;
        let mut map_data: Vec<[usize; 2]> = Vec::new();
        let mut at: usize = entries_at;
        let mut i: usize = 0;
        while i < count
            invariant
                i <= count == Self::map_count(b, off),
                b == bytes@,
                1 <= entry_size <= 4,
                entry_size == Self::entry_size(b, off),
                inner_bits == Self::inner_bits(b, off),
                1 <= inner_bits <= 16,
                mask == (1u32 << inner_bits) - 1,
                entries_at == off + Self::header_size(b, off),
                at == entries_at + i * entry_size,
                entries_at + count * entry_size <= b.len() <= usize::MAX,
                map_data@.len() == i,
                forall|j: int|
                    0 <= j < i ==> {
                        &&& (#[trigger] map_data@[j])@[0] == Self::outer_of(
                            Self::entry(b, off, j),
                            Self::inner_bits(b, off),
                        )
                        &&& map_data@[j]@[1] == Self::inner_of(
                            Self::entry(b, off, j),
                            Self::inner_bits(b, off),
                        )
                    },
            decreases count - i,
        {
            assert(at + entry_size <= entries_at + count * entry_size && (i + 1) * entry_size == i
                * entry_size + entry_size) by (nonlinear_arith)
                requires
                    at == entries_at + i * entry_size,
                    i < count,
            ;
            let value: u32 = read_uint(bytes, at, entry_size)?;
            let outer: usize = (value >> inner_bits) as usize;
            let inner: usize = (value & mask) as usize;
            map_data.push([outer, inner]);
            at += entry_size;
            i += 1;
        }
        Ok(Self { map_data })
    }
}

impl HvarTable {
    /// Where the store of deltas starts.
    pub open spec fn store_at(b: Seq<u8>, off: int) -> int {
        off + be_u32(b, off + 4)
    }

    /// Where map `which` starts, for the maps of the advance width (0), the
    /// left side bearing (1) and the right side bearing (2); nothing for a
    /// map that the table does not have.
    pub open spec fn map_at(b: Seq<u8>, off: int, which: int) -> Option<int> {
        if be_u32(b, off + 8 + 4 * which) == 0 {
            None
        } else {
            Some(off + be_u32(b, off + 8 + 4 * which))
        }
    }

    /// The failure of map `which`, if the table has it and it fails.
    pub open spec fn map_failure(b: Seq<u8>, off: int, which: int) -> Option<ImtError> {
        match Self::map_at(b, off, which) {
            Some(at) => DeltaSetIndexMap::failure(b, at),
            None => None,
        }
    }

    /// The first check that fails when the table is read at `off`, if any:
    /// a header cut short; a version other than 1.0; then what fails in the
    /// store, in the map of the advance width, of the left and of the right
    /// side bearing.
    pub open spec fn failure(b: Seq<u8>, off: int) -> Option<ImtError> {
        let src = ImtErrorSource::HvarTable;
        if !fits(b, off, 20) {
            Some(truncated(src))
        } else if be_u16(b, off) != 1 || be_u16(b, off + 2) != 0 {
            Some(unexpected_version(src))
        } else if ItemVariationStore::failure(b, Self::store_at(b, off)).is_some() {
            ItemVariationStore::failure(b, Self::store_at(b, off))
        } else if Self::map_failure(b, off, 0).is_some() {
            Self::map_failure(b, off, 0)
        } else if Self::map_failure(b, off, 1).is_some() {
            Self::map_failure(b, off, 1)
        } else {
            Self::map_failure(b, off, 2)
        }
    }

    /// Whether `map` is what the table at `off` spells for map `which`.
    pub open spec fn map_decodes(
        map: Option<DeltaSetIndexMap>,
        b: Seq<u8>,
        off: int,
        which: int,
    ) -> bool {
        match Self::map_at(b, off, which) {
            Some(at) => map is Some && map.unwrap().decodes(b, at),
            None => map is None,
        }
    }

    /// Every field holds what the table at `off` spells.
    pub open spec fn decodes(&self, b: Seq<u8>, off: int) -> bool {
        &&& self.major_version == be_u16(b, off)
        &&& self.minor_version == be_u16(b, off + 2)
        &&& self.item_variation_store.decodes(b, Self::store_at(b, off))
        &&& Self::map_decodes(self.advance_map, b, off, 0)
        &&& Self::map_decodes(self.lsb_map, b, off, 1)
        &&& Self::map_decodes(self.rsb_map, b, off, 2)
    }

    /// Reads map `which` of the table at `table_offset`, if the table has
    /// it.
    fn parse_map(bytes: &[u8], table_offset: usize, which: usize) -> (r: Result<
        Option<DeltaSetIndexMap>,
        ImtError,
    >)
        requires
            which < 3,
            fits(bytes@, table_offset as int, 20),
        ensures
            match r {
                Ok(map) => Self::map_failure(bytes@, table_offset as int, which as int).is_none()
                    && Self::map_decodes(map, bytes@, table_offset as int, which as int),
                Err(e) => Self::map_failure(bytes@, table_offset as int, which as int) == Some(e),
            },
    {
        let src = ImtErrorSource::HvarTable;
        let len: usize = bytes.len();
        let relative: u32 = read_u32(bytes, table_offset + 8 + which * 4, src)?;
        if relative == 0 {
            return Ok(None);
        }
        match wide_offset(table_offset, relative, len) {
            Some(at) => {
                let map = DeltaSetIndexMap::try_parse(bytes, at)?;
                Ok(Some(map))
            },
            None => Err(truncated_in(src)),
        }
    }

    /// Reads the `HVAR` table that starts at `table_offset`.
    pub fn try_parse(bytes: &[u8], table_offset: usize) -> (r: Result<Self, ImtError>)
        ensures
            match r {
                Ok(t) => {
                    &&& Self::failure(bytes@, table_offset as int).is_none()
                    &&& t.decodes(bytes@, table_offset as int)
                    &&& t.item_variation_store.wf()
                },
                Err(e) => Self::failure(bytes@, table_offset as int) == Some(e),
            },
    {
        let src = ImtErrorSource::HvarTable;
        let len: usize = bytes.len();
        if !in_bounds(len, table_offset, 20) {
            return Err(truncated_in(src));
        }
        let major_version: u16 = read_u16(bytes, table_offset, src)?;
        let minor_version: u16 = read_u16(bytes, table_offset + 2, src)?;
        if major_version != 1 || minor_version != 0 {
            return Err(ImtError { kind: ImtErrorKind::UnexpectedVersion, source: src });
        }
        let store_relative: u32 = read_u32(bytes, table_offset + 4, src)?;
        let item_variation_store = match wide_offset(table_offset, store_relative, len) {
            Some(at) => ItemVariationStore::try_parse(bytes, at)?,
            None => {
                return Err(truncated_in(src));
            },
        };
        let advance_map = Self::parse_map(bytes, table_offset, 0)?;
        let lsb_map = Self::parse_map(bytes, table_offset, 1)?;
        let rsb_map = Self::parse_map(bytes, table_offset, 2)?;
        Ok(
            Self {
                major_version,
                minor_version,
                item_variation_store,
                advance_map,
                lsb_map,
                rsb_map,
            },
        )
    }
}

} // verus!
