//! The `gvar` table: how the points of each glyph move along the axes of
//! variation.

use crate::error::{ImtError, ImtErrorKind, ImtErrorSource};
use crate::parse::glyf_table::GlyfTable;
use crate::parse::packed::{
    last_point, packed_deltas, packed_points, parse_packed_deltas, parse_packed_points,
};
use crate::parse::{
    be_i16, be_u16, be_u32, first_failure, fits, in_bounds, in_bounds_wide,
    lemma_first_failure_stays, malformed, malformed_in, read_f2dot14, read_u16, read_u32,
    truncated, truncated_in, unexpected_version, wide_offset, F2Dot14, F2DOT14_ONE,
};
use std::collections::BTreeMap;
use vstd::prelude::*;
use vstd::slice::slice_subrange;

verus! {

/// The `gvar` table: the variations of each glyph that has an outline and
/// variation data, by glyph id.
#[derive(Debug, Clone)]
pub struct GvarTable {
    pub major_version: u16,
    pub minor_version: u16,
    pub axis_count: usize,
    pub glyph_variations: BTreeMap<u16, GlyphVariation>,
}

/// The variations of one glyph.
#[derive(Debug, Clone)]
pub struct GlyphVariation {
    pub tuples: Vec<TupleVariation>,
}

/// One variation of a glyph: a region of the design space and the deltas
/// that apply in it.
#[derive(Debug, Clone)]
pub struct TupleVariation {
    /// Where the variation is in full effect, with one entry per axis.
    pub peak: Vec<F2Dot14>,
    /// Where the effect starts and ends, if that is not at zero.
    pub interm: Option<IntermediateTuples>,
    /// The points that have a delta of their own. When empty, every point
    /// has one, the four phantom points after the last point included.
    pub points: Vec<u16>,
    /// One delta in x and y for each entry of `points`, or for every point
    /// when `points` is empty.
    pub deltas: Vec<[i16; 2]>,
}

/// Where the effect of a variation starts and where it ends, with one entry
/// per axis each.
#[derive(Debug, Clone)]
pub struct IntermediateTuples {
    pub start: Vec<F2Dot14>,
    pub end: Vec<F2Dot14>,
}

/// Whether a value lies between -1 and 1.
pub open spec fn in_unit_range(v: i16) -> bool {
    -F2DOT14_ONE <= v <= F2DOT14_ONE
}

/// Whether the values of a variation keep the rules for a glyph with
/// `num_points` points: every peak lies between -1 and 1; with a start and
/// an end, these lie between -1 and 1 too, and the peak between them; and
/// every point number names a point of the glyph or a phantom point.
pub open spec fn tuple_values_valid(
    peak: Seq<i16>,
    interm: Option<(Seq<i16>, Seq<i16>)>,
    points: Seq<int>,
    num_points: int,
) -> bool {
    &&& forall|a: int| 0 <= a < peak.len() ==> in_unit_range(#[trigger] peak[a])
    &&& match interm {
        Some(region) => forall|a: int|
            0 <= a < peak.len() ==> {
                &&& region.0[a] <= #[trigger] peak[a] <= region.1[a]
                &&& in_unit_range(region.0[a])
                &&& in_unit_range(region.1[a])
            },
        None => true,
    }
    &&& forall|k: int| 0 <= k < points.len() ==> #[trigger] points[k] < num_points + 4
}

/// The number of bytes of the header of a variation with the flags `flags`:
/// four, and two per axis for a peak of its own, and four per axis for a
/// start and an end.
pub open spec fn header_size(flags: u16, axis_count: int) -> int {
    4 + (if flags & 0x8000 != 0 {
        2 * axis_count
    } else {
        0
    }) + (if flags & 0x4000 != 0 {
        4 * axis_count
    } else {
        0
    })
}

/// The variation data of one glyph, as it lies in the table.
pub struct GlyphBlock {
    /// The bytes of the glyph's variation data.
    pub data: Seq<u8>,
    /// The number of axes of the font.
    pub axis_count: int,
    /// The peaks that the glyphs of the table share, axis after axis.
    pub shared_tuples: Seq<i16>,
    /// The number of points of the glyph's outline.
    pub num_points: int,
}

impl GlyphBlock {
    /// The number of variations.
    pub open spec fn tuple_count(self) -> int {
        (be_u16(self.data, 0) & 0x0FFF) as int
    }

    /// Whether the packed data starts with point numbers that variations
    /// without their own share.
    pub open spec fn has_shared_points(self) -> bool {
        be_u16(self.data, 0) & 0x8000 != 0
    }

    /// Where the packed data starts.
    pub open spec fn serial_base(self) -> int {
        be_u16(self.data, 2) as int
    }

    /// The packed data: point numbers and deltas.
    pub open spec fn serialized(self) -> Seq<u8> {
        self.data.subrange(self.serial_base(), self.data.len() as int)
    }

    /// What reading the shared point numbers gives.
    pub open spec fn shared_read(self) -> Result<(Seq<int>, int), ImtError> {
        packed_points(self.serialized())
    }

    /// The shared point numbers; none when the glyph has none.
    pub open spec fn shared_points(self) -> Seq<int> {
        if self.has_shared_points() {
            self.shared_read().unwrap().0
        } else {
            Seq::empty()
        }
    }

    /// The flags and the shared peak index of variation `t`.
    pub open spec fn tuple_index(self, t: int) -> u16 {
        be_u16(self.data, self.header_at(t) + 2)
    }

    /// Whether variation `t` holds its own peak.
    pub open spec fn embedded_peak(self, t: int) -> bool {
        self.tuple_index(t) & 0x8000 != 0
    }

    /// Whether variation `t` holds a start and an end.
    pub open spec fn intermediate(self, t: int) -> bool {
        self.tuple_index(t) & 0x4000 != 0
    }

    /// Whether variation `t` has point numbers of its own.
    pub open spec fn private_points(self, t: int) -> bool {
        self.tuple_index(t) & 0x2000 != 0
    }

    /// Where the shared peak of variation `t` starts in the shared peaks.
    pub open spec fn shared_index(self, t: int) -> int {
        (self.tuple_index(t) & 0x0FFF) as int * self.axis_count
    }

    /// The number of bytes of the peak in the header of variation `t`.
    pub open spec fn peak_size(self, t: int) -> int {
        if self.embedded_peak(t) {
            2 * self.axis_count
        } else {
            0
        }
    }

    /// The number of bytes of start and end in the header of variation `t`.
    pub open spec fn interm_size(self, t: int) -> int {
        if self.intermediate(t) {
            4 * self.axis_count
        } else {
            0
        }
    }

    /// Where the header of variation `t` starts: the first after the four
    /// bytes at the start of the data, each other where the one before it
    /// ends.
    pub open spec fn header_at(self, t: int) -> int
        decreases t,
    {
        if t <= 0 {
            4
        } else {
            let before = self.header_at(t - 1);
            before + header_size(be_u16(self.data, before + 2), self.axis_count)
        }
    }

    /// The number of bytes of packed data of variation `t`.
    pub open spec fn data_size(self, t: int) -> int {
        be_u16(self.data, self.header_at(t)) as int
    }

    /// Where in the packed data the data of variation `t` starts: that of
    /// the first after the shared point numbers, each other where the one
    /// before it ends.
    pub open spec fn serial_at(self, t: int) -> int
        decreases t,
    {
        if t <= 0 {
            if self.has_shared_points() {
                self.shared_read().unwrap().1
            } else {
                0
            }
        } else {
            self.serial_at(t - 1) + self.data_size(t - 1)
        }
    }

    /// The packed data of variation `t`.
    pub open spec fn tuple_data(self, t: int) -> Seq<u8> {
        self.serialized().subrange(self.serial_at(t), self.serial_at(t) + self.data_size(t))
    }

    /// What reading the point numbers of variation `t` gives, if it has its
    /// own.
    pub open spec fn private_read(self, t: int) -> Result<(Seq<int>, int), ImtError> {
        packed_points(self.tuple_data(t))
    }

    /// The point numbers of variation `t`: its own, or the shared ones.
    pub open spec fn points(self, t: int) -> Seq<int> {
        if self.private_points(t) {
            self.private_read(t).unwrap().0
        } else {
            self.shared_points()
        }
    }

    /// Where in the packed data of variation `t` its deltas start.
    pub open spec fn delta_offset(self, t: int) -> int {
        if self.private_points(t) {
            self.private_read(t).unwrap().1
        } else {
            0
        }
    }

    /// The number of points that variation `t` has deltas for: those it
    /// names, or every point and the four phantom points.
    pub open spec fn delta_count(self, t: int) -> int {
        if self.points(t).len() == 0 {
            self.num_points + 4
        } else {
            self.points(t).len() as int
        }
    }

    /// What reading the deltas of variation `t` gives.
    pub open spec fn deltas_read(self, t: int) -> Result<Seq<i16>, ImtError> {
        packed_deltas(
            self.tuple_data(t).subrange(self.delta_offset(t), self.data_size(t)),
            self.delta_count(t),
        )
    }

    /// The peak of variation `t`: its own, or one of the shared peaks.
    pub open spec fn peak(self, t: int) -> Seq<i16> {
        if self.embedded_peak(t) {
            Seq::new(
                self.axis_count as nat,
                |a: int| be_i16(self.data, self.header_at(t) + 4 + 2 * a),
            )
        } else {
            self.shared_tuples.subrange(self.shared_index(t), self.shared_index(t) + self.axis_count)
        }
    }

    /// Where start and end of variation `t` are kept.
    pub open spec fn interm_at(self, t: int) -> int {
        self.header_at(t) + 4 + self.peak_size(t)
    }

    /// Start and end of variation `t`, if it has them.
    pub open spec fn interm(self, t: int) -> Option<(Seq<i16>, Seq<i16>)> {
        if self.intermediate(t) {
            Some(
                (
                    Seq::new(
                        self.axis_count as nat,
                        |a: int| be_i16(self.data, self.interm_at(t) + 2 * a),
                    ),
                    Seq::new(
                        self.axis_count as nat,
                        |a: int|
                            be_i16(self.data, self.interm_at(t) + 2 * self.axis_count + 2 * a),
                    ),
                ),
            )
        } else {
            None
        }
    }

    /// The first check that fails when the header of variation `t` is read,
    /// if any: the header or its peak is cut short, it names a shared peak
    /// that the table does not have, or its start and end are cut short.
    pub open spec fn header_failure(self, t: int) -> Option<ImtError> {
        let src = ImtErrorSource::GvarTable;
        if !fits(self.data, self.header_at(t), 4) {
            Some(truncated(src))
        } else if self.embedded_peak(t) && !fits(self.data, self.header_at(t) + 4, self.peak_size(t)) {
            Some(truncated(src))
        } else if !self.embedded_peak(t) && self.shared_index(t) + self.axis_count
            > self.shared_tuples.len() {
            Some(malformed(src))
        } else if !fits(self.data, self.interm_at(t), self.interm_size(t)) {
            Some(truncated(src))
        } else {
            None
        }
    }

    /// The first check that fails when the point numbers of variation `t`
    /// are read, if any. Point numbers of its own must lie inside the packed
    /// data and be well packed; the last point number must not lie more
    /// than four past the last point.
    pub open spec fn points_failure(self, t: int) -> Option<ImtError> {
        let src = ImtErrorSource::GvarTable;
        if self.private_points(t) && self.serial_at(t) >= self.serialized().len() {
            Some(truncated(src))
        } else if self.private_points(t) && self.serial_at(t) + self.data_size(t)
            > self.serialized().len() {
            Some(truncated(src))
        } else if self.private_points(t) && self.private_read(t) is Err {
            Some(self.private_read(t)->Err_0)
        } else if last_point(self.points(t)) > self.num_points + 4 {
            Some(malformed(src))
        } else {
            None
        }
    }

    /// The first check that fails when the deltas of variation `t` are
    /// read, if any: there is no packed data left for them, the packed data
    /// of the variation runs past the end, or the deltas are not well
    /// packed.
    pub open spec fn deltas_failure(self, t: int) -> Option<ImtError> {
        let src = ImtErrorSource::GvarTable;
        if self.serial_at(t) + self.delta_offset(t) >= self.serialized().len() {
            Some(malformed(src))
        } else if self.serial_at(t) + self.data_size(t) > self.serialized().len() {
            Some(truncated(src))
        } else if self.deltas_read(t) is Err {
            Some(self.deltas_read(t)->Err_0)
        } else {
            None
        }
    }

    /// The first check that fails when variation `t` is read, if any: in
    /// its header, its point numbers, its deltas, and last the rules for
    /// its values.
    pub open spec fn tuple_failure(self, t: int) -> Option<ImtError> {
        if self.header_failure(t).is_some() {
            self.header_failure(t)
        } else if self.points_failure(t).is_some() {
            self.points_failure(t)
        } else if self.deltas_failure(t).is_some() {
            self.deltas_failure(t)
        } else if !tuple_values_valid(
            self.peak(t),
            self.interm(t),
            self.points(t),
            self.num_points,
        ) {
            Some(malformed(ImtErrorSource::GvarTable))
        } else {
            None
        }
    }

    /// The failure of each variation, by its index.
    pub open spec fn tuple_failures(self) -> spec_fn(int) -> Option<ImtError> {
        |t: int| self.tuple_failure(t)
    }

    /// The first check that fails when the variation data is read, if any:
    /// fewer than four bytes; packed data that starts at or after the end;
    /// shared point numbers that are not well packed; the first variation
    /// that fails.
    pub open spec fn failure(self) -> Option<ImtError> {
        let src = ImtErrorSource::GvarTable;
        if !fits(self.data, 0, 4) {
            Some(truncated(src))
        } else if self.serial_base() >= self.data.len() {
            Some(truncated(src))
        } else if self.has_shared_points() && self.shared_read() is Err {
            Some(self.shared_read()->Err_0)
        } else {
            first_failure(self.tuple_count(), self.tuple_failures())
        }
    }

    /// Whether `tuple` holds what variation `t` spells.
    pub open spec fn tuple_is(self, t: int, tuple: TupleVariation) -> bool {
        &&& tuple.peak@ == self.peak(t)
        &&& match self.interm(t) {
            Some(region) => tuple.interm is Some && tuple.interm.unwrap().start@ == region.0
                && tuple.interm.unwrap().end@ == region.1,
            None => tuple.interm is None,
        }
        &&& tuple.points@.len() == self.points(t).len()
        &&& forall|k: int|
            0 <= k < tuple.points@.len() ==> #[trigger] tuple.points@[k] == self.points(t)[k]
        &&& tuple.deltas@.len() == self.delta_count(t)
        &&& forall|k: int|
            0 <= k < tuple.deltas@.len() ==> (#[trigger] tuple.deltas@[k])@[0]
                == self.deltas_read(t).unwrap()[k] && tuple.deltas@[k]@[1]
                == self.deltas_read(t).unwrap()[self.delta_count(t) + k]
    }

    /// Whether `variation` holds what the variation data spells.
    pub open spec fn variation_is(self, variation: GlyphVariation) -> bool {
        &&& variation.tuples@.len() == self.tuple_count()
        &&& forall|t: int|
            0 <= t < self.tuple_count() ==> self.tuple_is(t, #[trigger] variation.tuples@[t])
    }
}

impl TupleVariation {
    /// Whether the variation fits a font with `axis_count` axes and a glyph
    /// with `num_points` points: its peak, start and end have one entry per
    /// axis and keep the rules for their values; its point numbers name
    /// points of the glyph or phantom points and never fall; and it has one
    /// delta per point number, or one per point and phantom point when it
    /// has no point numbers.
    pub open spec fn wf(&self, axis_count: int, num_points: int) -> bool {
        &&& self.peak@.len() == axis_count
        &&& match self.interm {
            Some(region) => region.start@.len() == axis_count && region.end@.len() == axis_count,
            None => true,
        }
        &&& tuple_values_valid(
            self.peak@,
            match self.interm {
                Some(region) => Some((region.start@, region.end@)),
                None => None,
            },
            point_numbers(self.points@),
            num_points,
        )
        &&& forall|i: int, j: int|
            0 <= i <= j < self.points@.len() ==> self.points@[i] <= self.points@[j]
        &&& self.deltas@.len() == if self.points@.len() == 0 {
            num_points + 4
        } else {
            self.points@.len() as int
        }
    }
}

/// The point numbers of a variation as integers.
pub open spec fn point_numbers(points: Seq<u16>) -> Seq<int> {
    Seq::new(points.len(), |k: int| points[k] as int)
}

/// Reads `count` 2.14 numbers from `at` on.
fn read_values(bytes: &[u8], at: usize, count: usize) -> (r: Result<Vec<F2Dot14>, ImtError>)
    requires
        fits(bytes@, at as int, 2 * count),
    ensures
        r is Ok,
        r.unwrap()@ == Seq::new(count as nat, |a: int| be_i16(bytes@, at + 2 * a)),
{
    let len: usize = bytes.len();
    let mut values: Vec<F2Dot14> = Vec::new();
    let mut a: usize = 0;
    while a < count
        invariant
            a <= count,
            at + 2 * count <= bytes@.len() <= usize::MAX,
            values@ == Seq::new(a as nat, |j: int| be_i16(bytes@, at + 2 * j)),
        decreases count - a,
    {
        let value: F2Dot14 = read_f2dot14(bytes, at + 2 * a, ImtErrorSource::GvarTable)?;
        values.push(value);
        a += 1;
    }
    Ok(values)
}

/// Copies `count` values of `values` from `from` on.
fn copy_values(values: &Vec<F2Dot14>, from: usize, count: usize) -> (r: Vec<F2Dot14>)
    requires
        from + count <= values@.len(),
    ensures
        r@ == values@.subrange(from as int, from + count),
{
    let len: usize = values.len();
    let mut copy: Vec<F2Dot14> = Vec::new();
    let mut a: usize = 0;
    while a < count
        invariant
            a <= count,
            from + count <= values@.len() == len,
            copy@ == values@.subrange(from as int, from + a),
        decreases count - a,
    {
        copy.push(values[from + a]);
        a += 1;
    }
    copy
}

/// Copies a list of point numbers.
fn copy_points(points: &Vec<u16>) -> (r: Vec<u16>)
    ensures
        r@ == points@,
{
    let mut copy: Vec<u16> = Vec::new();
    let mut k: usize = 0;
    while k < points.len()
        invariant
            k <= points@.len(),
            copy@ == points@.subrange(0, k as int),
        decreases points@.len() - k,
    {
        copy.push(points[k]);
        k += 1;
    }
    copy
}

/// Tells whether a value lies between -1 and 1.
fn is_in_unit_range(v: F2Dot14) -> (r: bool)
    ensures
        r == in_unit_range(v),
{
    -F2DOT14_ONE <= v && v <= F2DOT14_ONE
}

/// Tells whether start and end lie between -1 and 1 and the peak between
/// them, on every axis.
fn region_valid(peak: &Vec<F2Dot14>, start: &Vec<F2Dot14>, end: &Vec<F2Dot14>) -> (r: bool)
    requires
        start@.len() == peak@.len(),
        end@.len() == peak@.len(),
    ensures
        r == forall|a: int|
            0 <= a < peak@.len() ==> {
                &&& start@[a] <= #[trigger] peak@[a] <= end@[a]
                &&& in_unit_range(start@[a])
                &&& in_unit_range(end@[a])
            },
{
    let count: usize = peak.len();
    let mut a: usize = 0;
    while a < count
        invariant
            a <= count == peak@.len(),
            start@.len() == count,
            end@.len() == count,
            forall|j: int|
                0 <= j < a ==> {
                    &&& start@[j] <= #[trigger] peak@[j] <= end@[j]
                    &&& in_unit_range(start@[j])
                    &&& in_unit_range(end@[j])
                },
        decreases count - a,
    {
        if start[a] > peak[a] || peak[a] > end[a] || !is_in_unit_range(start[a])
            || !is_in_unit_range(end[a]) {
            return false;
        }
        a += 1;
    }
    true
}

/// Tells whether the values of a variation keep the rules for a glyph with
/// `num_points` points.
fn values_valid(
    peak: &Vec<F2Dot14>,
    interm: &Option<IntermediateTuples>,
    points: &Vec<u16>,
    num_points: usize,
) -> (r: bool)
    requires
        num_points <= 0x1_0000,
        match interm {
            Some(region) => region.start@.len() == peak@.len() && region.end@.len() == peak@.len(),
            None => true,
        },
    ensures
        r == tuple_values_valid(
            peak@,
            match interm {
                Some(region) => Some((region.start@, region.end@)),
                None => None,
            },
            point_numbers(points@),
            num_points as int,
        ),
{
    let count: usize = peak.len();
    let mut a: usize = 0;
    while a < count
        invariant
            a <= count == peak@.len(),
            forall|j: int| 0 <= j < a ==> in_unit_range(#[trigger] peak@[j]),
        decreases count - a,
    {
        if !is_in_unit_range(peak[a]) {
            return false;
        }
        a += 1;
    }
    match interm {
        Some(region) => {
            if !region_valid(peak, &region.start, &region.end) {
                return false;
            }
        },
        None => {},
    }
    let mut k: usize = 0;
    while k < points.len()
        invariant
            k <= points@.len(),
            num_points <= 0x1_0000,
            forall|j: int| 0 <= j < k ==> #[trigger] point_numbers(points@)[j] < num_points + 4,
        decreases points@.len() - k,
    {
        if points[k] as usize >= num_points + 4 {
            assert(point_numbers(points@)[k as int] >= num_points + 4);
            return false;
        }
        k += 1;
    }
    true
}

/// What the header of a variation holds.
struct TupleHeader {
    data_size: usize,
    private_points: bool,
    peak: Vec<F2Dot14>,
    interm: Option<IntermediateTuples>,
    next: usize,
}

impl GlyphBlock {
    /// Whether `header` holds what the header of variation `t` spells.
    spec fn header_is(self, t: int, header: TupleHeader) -> bool {
        &&& header.data_size == self.data_size(t)
        &&& header.private_points == self.private_points(t)
        &&& header.peak@ == self.peak(t)
        &&& header.peak@.len() == self.axis_count
        &&& match self.interm(t) {
            Some(region) => header.interm is Some && header.interm.unwrap().start@ == region.0
                && header.interm.unwrap().end@ == region.1,
            None => header.interm is None,
        }
        &&& header.next == self.header_at(t + 1)
        &&& header.next <= self.data.len()
    }
}

/// Reads the header of the variation that starts at `header_at`.
fn read_tuple_header(
    data: &[u8],
    header_at: usize,
    axis_count: usize,
    shared_tuples: &Vec<F2Dot14>,
    Ghost(block): Ghost<GlyphBlock>,
    Ghost(t): Ghost<int>,
) -> (r: Result<TupleHeader, ImtError>)
    requires
        block.data == data@,
        block.axis_count == axis_count,
        block.shared_tuples == shared_tuples@,
        header_at == block.header_at(t),
        axis_count <= 0xFFFF,
        0 <= t,
    ensures
        match r {
            Ok(header) => block.header_failure(t).is_none() && block.header_is(t, header),
            Err(e) => block.header_failure(t) == Some(e),
        },
{
    let src = ImtErrorSource::GvarTable;
    let len: usize = data.len();
    if !in_bounds(len, header_at, 4) {
        return Err(truncated_in(src));
    }
    let data_size: usize = read_u16(data, header_at, src)? as usize;
    let tuple_index: u16 = read_u16(data, header_at + 2, src)?;
    let mut next: usize = header_at + 4;
    let embedded_peak: bool = tuple_index & 0x8000 != 0;
    let intermediate: bool = tuple_index & 0x4000 != 0;
    let private_points: bool = tuple_index & 0x2000 != 0;
    assert(tuple_index & 0x0FFF <= 0x0FFF) by (bit_vector);
    let peak: Vec<F2Dot14> = if embedded_peak {
        if !in_bounds(len, next, 2 * axis_count) {
            return Err(truncated_in(src));
        }
        let peak = read_values(data, next, axis_count)?;
        next = next + 2 * axis_count;
        peak
    } else {
        assert((tuple_index & 0x0FFF) as int * axis_count <= 0x0FFF * 0xFFFF) by (nonlinear_arith)
            requires
                (tuple_index & 0x0FFF) <= 0x0FFF,
                axis_count <= 0xFFFF,
        ;
        let index: u64 = (tuple_index & 0x0FFF) as u64 * axis_count as u64;
        if index + axis_count as u64 > shared_tuples.len() as u64 {
            return Err(malformed_in(src));
        }
        copy_values(shared_tuples, index as usize, axis_count)
    };
    let interm: Option<IntermediateTuples> = if intermediate {
        if !in_bounds(len, next, 4 * axis_count) {
            return Err(truncated_in(src));
        }
        let start = read_values(data, next, axis_count)?;
        let end = read_values(data, next + 2 * axis_count, axis_count)?;
        next = next + 4 * axis_count;
        Some(IntermediateTuples { start, end })
    } else {
        None
    };
    Ok(TupleHeader { data_size, private_points, peak, interm, next })
}

/// Reads what follows the header of variation `t`: its point numbers and
/// deltas from the packed data at `serial_at`. Gives the variation and where
/// the packed data of the next variation starts.
fn parse_tuple(
    serialized: &[u8],
    header: TupleHeader,
    serial_at: usize,
    shared_points: &Vec<u16>,
    num_points: usize,
    Ghost(block): Ghost<GlyphBlock>,
    Ghost(t): Ghost<int>,
) -> (r: Result<(TupleVariation, usize), ImtError>)
    requires
        0 <= t,
        serialized@ == block.serialized(),
        serial_at == block.serial_at(t),
        serial_at <= serialized@.len(),
        point_numbers(shared_points@) == block.shared_points(),
        forall|i: int, j: int|
            0 <= i <= j < shared_points@.len() ==> shared_points@[i] <= shared_points@[j],
        num_points == block.num_points,
        num_points <= 0x1_0000,
        block.axis_count >= 0,
        block.header_failure(t).is_none(),
        block.header_is(t, header),
    ensures
        match r {
            Ok(read) => {
                &&& block.tuple_failure(t).is_none()
                &&& block.tuple_is(t, read.0)
                &&& read.0.wf(block.axis_count, block.num_points)
                &&& read.1 == block.serial_at(t + 1)
                &&& read.1 <= serialized@.len()
            },
            Err(e) => block.tuple_failure(t) == Some(e),
        },
{
    let src = ImtErrorSource::GvarTable;
    let serial_len: usize = serialized.len();
    let data_size: usize = header.data_size;
    let mut points: Vec<u16> = Vec::new();
    let mut delta_offset: usize = 0;
    if header.private_points {
        if serial_at >= serial_len {
            return Err(truncated_in(src));
        }
        if !in_bounds(serial_len, serial_at, data_size) {
            return Err(truncated_in(src));
        }
        let tuple_data = slice_subrange(serialized, serial_at, serial_at + data_size);
        delta_offset = parse_packed_points(tuple_data, &mut points)?;
        assert(point_numbers(points@) =~= block.points(t));
    } else {
        points = copy_points(shared_points);
    }
    let last: usize = if points.len() == 0 {
        0
    } else {
        points[points.len() - 1] as usize
    };
    if last > num_points + 4 {
        return Err(malformed_in(src));
    }
    if serial_at + delta_offset >= serial_len {
        return Err(malformed_in(src));
    }
    if !in_bounds(serial_len, serial_at, data_size) {
        return Err(truncated_in(src));
    }
    let tuple_data = slice_subrange(serialized, serial_at, serial_at + data_size);
    let delta_bytes = slice_subrange(tuple_data, delta_offset, data_size);
    let delta_count: usize = if points.len() == 0 {
        num_points + 4
    } else {
        points.len()
    };
    let deltas = parse_packed_deltas(delta_bytes, delta_count)?;
    if !values_valid(&header.peak, &header.interm, &points, num_points) {
        return Err(malformed_in(src));
    }
    let tuple = TupleVariation { peak: header.peak, interm: header.interm, points, deltas };
    Ok((tuple, serial_at + data_size))
}

/// Reads the variation data of one glyph.
fn parse_glyph_block(
    data: &[u8],
    axis_count: usize,
    shared_tuples: &Vec<F2Dot14>,
    num_points: usize,
) -> (r: Result<GlyphVariation, ImtError>)
    requires
        axis_count <= 0xFFFF,
        num_points <= 0x1_0000,
    ensures
        match r {
            Ok(variation) => {
                &&& (GlyphBlock {
                    data: data@,
                    axis_count: axis_count as int,
                    shared_tuples: shared_tuples@,
                    num_points: num_points as int,
                }).failure().is_none()
                &&& (GlyphBlock {
                    data: data@,
                    axis_count: axis_count as int,
                    shared_tuples: shared_tuples@,
                    num_points: num_points as int,
                }).variation_is(variation)
                &&& variation.wf(axis_count as int, num_points as int)
            },
            Err(e) => (GlyphBlock {
                data: data@,
                axis_count: axis_count as int,
                shared_tuples: shared_tuples@,
                num_points: num_points as int,
            }).failure() == Some(e),
        },
{
    let src = ImtErrorSource::GvarTable;
    let ghost block = GlyphBlock {
        data: data@,
        axis_count: axis_count as int,
        shared_tuples: shared_tuples@,
        num_points: num_points as int,
    };
    let len: usize = data.len();
    if !in_bounds(len, 0, 4) {
        return Err(truncated_in(src));
    }
    let count_field: u16 = read_u16(data, 0, src)?;
    let serial_base: usize = read_u16(data, 2, src)? as usize;
    let has_shared_points: bool = count_field & 0x8000 != 0;
    let tuple_count: usize = (count_field & 0x0FFF) as usize;
    if serial_base >= len {
        return Err(truncated_in(src));
    }
    let serialized = slice_subrange(data, serial_base, len);
    let mut shared_points: Vec<u16> = Vec::new();
    let mut serial_at: usize = 0;
    if has_shared_points {
        serial_at = parse_packed_points(serialized, &mut shared_points)?;
    }
    let ghost failures = block.tuple_failures();
    let mut tuples: Vec<TupleVariation> = Vec::new();
    let mut header_at: usize = 4;
    let mut t: usize = 0;
    while t < tuple_count
        invariant
            t <= tuple_count == block.tuple_count(),
            block == (GlyphBlock {
                data: data@,
                axis_count: axis_count as int,
                shared_tuples: shared_tuples@,
                num_points: num_points as int,
            }),
            axis_count <= 0xFFFF,
            num_points <= 0x1_0000,
            fits(block.data, 0, 4),
            block.serial_base() < block.data.len(),
            !(block.has_shared_points() && block.shared_read() is Err),
            serialized@ == block.serialized(),
            point_numbers(shared_points@) == block.shared_points(),
            forall|i: int, j: int|
                0 <= i <= j < shared_points@.len() ==> shared_points@[i] <= shared_points@[j],
            failures == block.tuple_failures(),
            first_failure(t as int, failures).is_none(),
            header_at == block.header_at(t as int),
            serial_at == block.serial_at(t as int),
            serial_at <= serialized@.len(),
            tuples@.len() == t,
            forall|j: int|
                0 <= j < t ==> block.tuple_is(j, #[trigger] tuples@[j]) && tuples@[j].wf(
                    block.axis_count,
                    block.num_points,
                ),
        decreases tuple_count - t,
    {
        let header = match read_tuple_header(
            data,
            header_at,
            axis_count,
            shared_tuples,
            Ghost(block),
            Ghost(t as int),
        ) {
            Ok(header) => header,
            Err(e) => {
                proof {
                    lemma_first_failure_stays(t + 1, tuple_count as int, failures);
                }
                return Err(e);
            },
        };
        let next_header: usize = header.next;
        let (tuple, next_serial) = match parse_tuple(
            serialized,
            header,
            serial_at,
            &shared_points,
            num_points,
            Ghost(block),
            Ghost(t as int),
        ) {
            Ok(read) => read,
            Err(e) => {
                proof {
                    lemma_first_failure_stays(t + 1, tuple_count as int, failures);
                }
                return Err(e);
            },
        };
        tuples.push(tuple);
        header_at = next_header;
        serial_at = next_serial;
        t += 1;
    }
    Ok(GlyphVariation { tuples })
}

impl GlyphVariation {
    /// Whether every variation fits a font with `axis_count` axes and a
    /// glyph with `num_points` points.
    pub open spec fn wf(&self, axis_count: int, num_points: int) -> bool {
        forall|t: int|
            0 <= t < self.tuples@.len() ==> (#[trigger] self.tuples@[t]).wf(axis_count, num_points)
    }
}

impl GvarTable {
    /// The number of axes of the table at `off`.
    pub open spec fn axes(b: Seq<u8>, off: int) -> int {
        be_u16(b, off + 4) as int
    }

    /// The number of shared peaks.
    pub open spec fn shared_count(b: Seq<u8>, off: int) -> int {
        be_u16(b, off + 6) as int
    }

    /// Where the shared peaks start.
    pub open spec fn shared_at(b: Seq<u8>, off: int) -> int {
        off + be_u32(b, off + 8)
    }

    /// The number of glyphs that the table covers.
    pub open spec fn glyph_count(b: Seq<u8>, off: int) -> int {
        be_u16(b, off + 12) as int
    }

    /// Whether the offsets of the glyphs are 32 bits wide rather than 16.
    pub open spec fn long_offsets(b: Seq<u8>, off: int) -> bool {
        be_u16(b, off + 14) & 1 == 1
    }

    /// The number of bytes of the offsets of the glyphs: one offset per
    /// glyph and one more that ends the last glyph.
    pub open spec fn offsets_size(b: Seq<u8>, off: int) -> int {
        if Self::long_offsets(b, off) {
            4 * (Self::glyph_count(b, off) + 1)
        } else {
            2 * (Self::glyph_count(b, off) + 1)
        }
    }

    /// Offset `i` of the glyphs: where the variation data of glyph `i`
    /// starts and that of the glyph before it ends. Offsets of 16 bits count
    /// pairs of bytes.
    pub open spec fn data_offset(b: Seq<u8>, off: int, i: int) -> int {
        off + be_u32(b, off + 16) + if Self::long_offsets(b, off) {
            be_u32(b, off + 20 + 4 * i) as int
        } else {
            2 * be_u16(b, off + 20 + 2 * i)
        }
    }

    /// The shared peaks, axis after axis.
    pub open spec fn shared_tuples(b: Seq<u8>, off: int) -> Seq<i16> {
        Seq::new(
            (Self::shared_count(b, off) * Self::axes(b, off)) as nat,
            |i: int| be_i16(b, Self::shared_at(b, off) + 2 * i),
        )
    }

    /// The variation data of glyph `i`, for an outline of `num_points`
    /// points.
    pub open spec fn block(b: Seq<u8>, off: int, i: int, num_points: int) -> GlyphBlock {
        GlyphBlock {
            data: b.subrange(Self::data_offset(b, off, i), Self::data_offset(b, off, i + 1)),
            axis_count: Self::axes(b, off),
            shared_tuples: Self::shared_tuples(b, off),
            num_points,
        }
    }

    /// Whether the offsets of glyph `i` are out of order or past the end of
    /// the data.
    pub open spec fn offsets_bad(b: Seq<u8>, off: int, i: int) -> bool {
        ||| Self::data_offset(b, off, i) > b.len()
        ||| Self::data_offset(b, off, i + 1) > b.len()
        ||| Self::data_offset(b, off, i) > Self::data_offset(b, off, i + 1)
    }

    /// Whether glyph `i` has variations: it has an outline, and variation
    /// data that is not empty.
    pub open spec fn has_variation(b: Seq<u8>, off: int, counts: Map<u16, int>, i: int) -> bool {
        counts.contains_key(i as u16) && Self::data_offset(b, off, i) != Self::data_offset(
            b,
            off,
            i + 1,
        )
    }

    /// The failure of each glyph, by its id: a glyph without an outline
    /// never fails; one with an outline must not have more points than
    /// point numbers of 16 bits can name; its offsets must be in order and
    /// inside the data; and its variation data, if not empty, must be well
    /// formed.
    pub open spec fn glyph_failures(b: Seq<u8>, off: int, counts: Map<u16, int>) -> spec_fn(
        int,
    ) -> Option<ImtError> {
        |i: int|
            if !counts.contains_key(i as u16) {
                None
            } else if counts[i as u16] > 0x1_0000 || Self::offsets_bad(b, off, i) {
                Some(malformed(ImtErrorSource::GvarTable))
            } else if !Self::has_variation(b, off, counts, i) {
                None
            } else {
                Self::block(b, off, i, counts[i as u16]).failure()
            }
    }

    /// The first check that fails when the table is read at `off` for the
    /// outlines of the `glyf` table, if any: a header cut short; a version
    /// other than 1.0; the offsets of the glyphs cut short; the shared peaks
    /// cut short; the first glyph that fails.
    pub open spec fn failure(b: Seq<u8>, off: int, counts: Map<u16, int>) -> Option<ImtError> {
        let src = ImtErrorSource::GvarTable;
        if !fits(b, off, 20) {
            Some(truncated(src))
        } else if be_u16(b, off) != 1 || be_u16(b, off + 2) != 0 {
            Some(unexpected_version(src))
        } else if !fits(b, off + 20, Self::offsets_size(b, off)) {
            Some(truncated(src))
        } else if !fits(
            b,
            Self::shared_at(b, off),
            2 * (Self::shared_count(b, off) * Self::axes(b, off)),
        ) {
            Some(truncated(src))
        } else {
            first_failure(Self::glyph_count(b, off), Self::glyph_failures(b, off, counts))
        }
    }

    /// Whether `variations` holds the variations of each of the first `n`
    /// glyphs that has some, and of no other glyph.
    pub open spec fn holds_variations(
        variations: Map<u16, GlyphVariation>,
        b: Seq<u8>,
        off: int,
        counts: Map<u16, int>,
        n: int,
    ) -> bool {
        &&& forall|id: u16|
            #[trigger] variations.contains_key(id) <==> id < n && Self::has_variation(
                b,
                off,
                counts,
                id as int,
            )
        &&& forall|id: u16|
            #[trigger] variations.contains_key(id) ==> {
                &&& Self::block(b, off, id as int, counts[id]).variation_is(variations[id])
                &&& variations[id].wf(Self::axes(b, off), counts[id])
            }
    }

    /// Every field holds what the table at `off` spells.
    pub open spec fn decodes(&self, b: Seq<u8>, off: int, counts: Map<u16, int>) -> bool {
        &&& self.major_version == be_u16(b, off)
        &&& self.minor_version == be_u16(b, off + 2)
        &&& self.axis_count == Self::axes(b, off)
        &&& Self::holds_variations(
            self.glyph_variations@,
            b,
            off,
            counts,
            Self::glyph_count(b, off),
        )
    }

    /// Whether the table fits outlines with the numbers of points `counts`:
    /// it has variations only for glyphs with an outline, and each fits the
    /// axes of the table and the points of the outline.
    pub open spec fn wf(&self, counts: Map<u16, int>) -> bool {
        forall|id: u16| #[trigger]
            self.glyph_variations@.contains_key(id) ==> counts.contains_key(id)
                && self.glyph_variations@[id].wf(self.axis_count as int, counts[id])
    }

    /// Reads offset `i` of the glyphs.
    fn read_data_offset(bytes: &[u8], table_offset: usize, i: usize) -> (r: Result<u128, ImtError>)
        requires
            fits(bytes@, table_offset as int, 20),
            fits(bytes@, table_offset + 20, Self::offsets_size(bytes@, table_offset as int)),
            i <= Self::glyph_count(bytes@, table_offset as int),
        ensures
            r == Ok::<u128, ImtError>(Self::data_offset(bytes@, table_offset as int, i as int) as u128),
            Self::data_offset(bytes@, table_offset as int, i as int) <= u128::MAX,
    {
        let src = ImtErrorSource::GvarTable;
        assert(bytes.len() == bytes@.len());
        let flags: u16 = read_u16(bytes, table_offset + 14, src)?;
        let array_relative: u32 = read_u32(bytes, table_offset + 16, src)?;
        let relative: u128 = if flags & 1 == 1 {
            read_u32(bytes, table_offset + 20 + 4 * i, src)? as u128
        } else {
            2 * (read_u16(bytes, table_offset + 20 + 2 * i, src)? as u128)
        };
        Ok(table_offset as u128 + array_relative as u128 + relative)
    }

    /// Reads the variations of glyph `i`, if it has some.
    fn parse_glyph(
        bytes: &[u8],
        table_offset: usize,
        glyf_table: &GlyfTable,
        shared_tuples: &Vec<F2Dot14>,
        i: usize,
    ) -> (r: Result<Option<GlyphVariation>, ImtError>)
        requires
            fits(bytes@, table_offset as int, 20),
            fits(bytes@, table_offset + 20, Self::offsets_size(bytes@, table_offset as int)),
            i < Self::glyph_count(bytes@, table_offset as int),
            shared_tuples@ == Self::shared_tuples(bytes@, table_offset as int),
        ensures
            match r {
                Ok(Some(variation)) => {
                    &&& Self::glyph_failures(bytes@, table_offset as int, glyf_table.point_counts())(
                        i as int,
                    ).is_none()
                    &&& Self::has_variation(
                        bytes@,
                        table_offset as int,
                        glyf_table.point_counts(),
                        i as int,
                    )
                    &&& Self::block(
                        bytes@,
                        table_offset as int,
                        i as int,
                        glyf_table.point_counts()[i as u16],
                    ).variation_is(variation)
                    &&& variation.wf(
                        Self::axes(bytes@, table_offset as int),
                        glyf_table.point_counts()[i as u16],
                    )
                },
                Ok(None) => {
                    &&& Self::glyph_failures(bytes@, table_offset as int, glyf_table.point_counts())(
                        i as int,
                    ).is_none()
                    &&& !Self::has_variation(
                        bytes@,
                        table_offset as int,
                        glyf_table.point_counts(),
                        i as int,
                    )
                },
                Err(e) => Self::glyph_failures(bytes@, table_offset as int, glyf_table.point_counts())(
                    i as int,
                ) == Some(e),
            },
    {
        let src = ImtErrorSource::GvarTable;
        let len: usize = bytes.len();
        let id: u16 = i as u16;
        let num_points: usize = match glyf_table.outlines.get(&id) {
            Some(outline) => outline.points.len(),
            None => {
                return Ok(None);
            },
        };
        if num_points > 0x1_0000 {
            return Err(malformed_in(src));
        }
        let start: u128 = Self::read_data_offset(bytes, table_offset, i)?;
        let end: u128 = Self::read_data_offset(bytes, table_offset, i + 1)?;
        if start > len as u128 || end > len as u128 || start > end {
            return Err(malformed_in(src));
        }
        if start == end {
            return Ok(None);
        }
        let axis_count: usize = read_u16(bytes, table_offset + 4, src)? as usize;
        let data = slice_subrange(bytes, start as usize, end as usize);
        let variation = parse_glyph_block(data, axis_count, shared_tuples, num_points)?;
        Ok(Some(variation))
    }

    /// Reads the `gvar` table that starts at `table_offset`, for the outlines of
    /// the `glyf` table.
    pub fn try_parse(bytes: &[u8], table_offset: usize, glyf_table: &GlyfTable) -> (r: Result<
        Self,
        ImtError,
    >)
        ensures
            match r {
                Ok(t) => {
                    &&& Self::failure(bytes@, table_offset as int, glyf_table.point_counts()).is_none()
                    &&& t.decodes(bytes@, table_offset as int, glyf_table.point_counts())
                    &&& t.wf(glyf_table.point_counts())
                },
                Err(e) => Self::failure(bytes@, table_offset as int, glyf_table.point_counts()) == Some(
                    e,
                ),
            },
    {
        let src = ImtErrorSource::GvarTable;
        let len: usize = bytes.len();
        let ghost b = bytes@;
        let ghost off = table_offset as int;
        let ghost counts = glyf_table.point_counts();
        if !in_bounds(len, table_offset, 20) {
            return Err(truncated_in(src));
        }
        let major_version: u16 = read_u16(bytes, table_offset, src)?;
        let minor_version: u16 = read_u16(bytes, table_offset + 2, src)?;
        if major_version != 1 || minor_version != 0 {
            return Err(ImtError { kind: ImtErrorKind::UnexpectedVersion, source: src });
        }
        let axis_count: usize = read_u16(bytes, table_offset + 4, src)? as usize;
        let shared_count: usize = read_u16(bytes, table_offset + 6, src)? as usize;
        let shared_relative: u32 = read_u32(bytes, table_offset + 8, src)?;
        let glyph_count: usize = read_u16(bytes, table_offset + 12, src)? as usize;
        let flags: u16 = read_u16(bytes, table_offset + 14, src)?;
        let offsets_size: usize = if flags & 1 == 1 {
            4 * (glyph_count + 1)
        } else {
            2 * (glyph_count + 1)
        };
        if !in_bounds(len, table_offset + 20, offsets_size) {
            return Err(truncated_in(src));
        }
        assert(shared_count * axis_count <= 0xFFFF * 0xFFFF) by (nonlinear_arith)
            requires
                shared_count <= 0xFFFF,
                axis_count <= 0xFFFF,
        ;
        let shared_values: u64 = shared_count as u64 * axis_count as u64;
        let shared_at: usize = match wide_offset(table_offset, shared_relative, len) {
            Some(at) => at,
            None => {
                return Err(truncated_in(src));
            },
        };
        if !in_bounds_wide(len, shared_at, 2 * shared_values) {
            return Err(truncated_in(src));
        }
        let shared_tuples = read_values(bytes, shared_at, shared_values as usize)?;
        let ghost failures = Self::glyph_failures(b, off, counts);
        let mut glyph_variations: BTreeMap<u16, GlyphVariation> = BTreeMap::new();
        let mut i: usize = 0;
        while i < glyph_count
            invariant
                i <= glyph_count == Self::glyph_count(b, off),
                b == bytes@,
                off == table_offset,
                counts == glyf_table.point_counts(),
                fits(b, off, 20),
                be_u16(b, off) == 1 && be_u16(b, off + 2) == 0,
                fits(b, off + 20, Self::offsets_size(b, off)),
                fits(
                    b,
                    Self::shared_at(b, off),
                    2 * (Self::shared_count(b, off) * Self::axes(b, off)),
                ),
                shared_tuples@ == Self::shared_tuples(b, off),
                failures == Self::glyph_failures(b, off, counts),
                first_failure(i as int, failures).is_none(),
                Self::holds_variations(glyph_variations@, b, off, counts, i as int),
            decreases glyph_count - i,
        {
            let parsed = Self::parse_glyph(bytes, table_offset, glyf_table, &shared_tuples, i);
            match parsed {
                Ok(Some(variation)) => {
                    glyph_variations.insert(i as u16, variation);
                },
                Ok(None) => {
                },
                Err(e) => {
                    proof {
                        lemma_first_failure_stays(i + 1, glyph_count as int, failures);
                    }
                    return Err(e);
                },
            }
            i += 1;
        }
        Ok(Self { major_version, minor_version, axis_count, glyph_variations })
    }
}

} // verus!
