//! The `glyf` table: the outline of each glyph.

use crate::error::{ImtError, ImtErrorSource};
use crate::parse::loca_table::LocaTable;
use crate::parse::outline::{contour_valid, Outline, OutlineRawPoint};
use crate::parse::{
    be_i16, be_u16, first_failure, fits, in_bounds, lemma_first_failure_stays, malformed,
    malformed_in, offset_sum, read_i16, read_u16, truncated, truncated_in, wide_offset,
};
use std::collections::BTreeMap;
use std::ops::Range;
use vstd::prelude::*;

verus! {

/// The `glyf` table: the outline of each glyph that has one, by glyph id.
/// A glyph without contours has no outline, and neither has a glyph put
/// together from other glyphs.
#[derive(Debug, Clone)]
pub struct GlyfTable {
    pub outlines: BTreeMap<u16, Outline>,
}

/// The flags of one point of a simple glyph.
#[derive(Debug, Clone, Copy)]
pub struct SimpleFlags(pub u8);

impl SimpleFlags {
    /// Whether the point lies on the outline rather than steering a curve.
    #[verifier::when_used_as_spec(spec_on_curve_point)]
    pub fn on_curve_point(&self) -> (r: bool)
        ensures
            r == self.spec_on_curve_point(),
    {
        self.0 & 0x01 != 0
    }

    /// What [`Self::on_curve_point`] tells.
    pub open spec fn spec_on_curve_point(&self) -> bool {
        self.0 & 0x01 != 0
    }

    /// Whether the x coordinate is one byte long.
    #[verifier::when_used_as_spec(spec_x_short_vector)]
    pub fn x_short_vector(&self) -> (r: bool)
        ensures
            r == self.spec_x_short_vector(),
    {
        self.0 & 0x02 != 0
    }

    /// What [`Self::x_short_vector`] tells.
    pub open spec fn spec_x_short_vector(&self) -> bool {
        self.0 & 0x02 != 0
    }

    /// Whether the y coordinate is one byte long.
    #[verifier::when_used_as_spec(spec_y_short_vector)]
    pub fn y_short_vector(&self) -> (r: bool)
        ensures
            r == self.spec_y_short_vector(),
    {
        self.0 & 0x04 != 0
    }

    /// What [`Self::y_short_vector`] tells.
    pub open spec fn spec_y_short_vector(&self) -> bool {
        self.0 & 0x04 != 0
    }

    /// Whether the next byte tells how many more points have these flags.
    #[verifier::when_used_as_spec(spec_repeat_flag)]
    pub fn repeat_flag(&self) -> (r: bool)
        ensures
            r == self.spec_repeat_flag(),
    {
        self.0 & 0x08 != 0
    }

    /// What [`Self::repeat_flag`] tells.
    pub open spec fn spec_repeat_flag(&self) -> bool {
        self.0 & 0x08 != 0
    }

    /// For a short x coordinate, whether it is positive; for a long one,
    /// whether it is the same as that of the point before.
    #[verifier::when_used_as_spec(spec_x_is_same_or_positive_x_short_vector)]
    pub fn x_is_same_or_positive_x_short_vector(&self) -> (r: bool)
        ensures
            r == self.spec_x_is_same_or_positive_x_short_vector(),
    {
        self.0 & 0x10 != 0
    }

    /// What [`Self::x_is_same_or_positive_x_short_vector`] tells.
    pub open spec fn spec_x_is_same_or_positive_x_short_vector(&self) -> bool {
        self.0 & 0x10 != 0
    }

    /// For a short y coordinate, whether it is positive; for a long one,
    /// whether it is the same as that of the point before.
    #[verifier::when_used_as_spec(spec_y_is_same_or_positive_y_short_vector)]
    pub fn y_is_same_or_positive_y_short_vector(&self) -> (r: bool)
        ensures
            r == self.spec_y_is_same_or_positive_y_short_vector(),
    {
        self.0 & 0x20 != 0
    }

    /// What [`Self::y_is_same_or_positive_y_short_vector`] tells.
    pub open spec fn spec_y_is_same_or_positive_y_short_vector(&self) -> bool {
        self.0 & 0x20 != 0
    }

    /// Whether the coordinate on the chosen axis is one byte long.
    pub open spec fn short_on(&self, x_axis: bool) -> bool {
        if x_axis {
            self.x_short_vector()
        } else {
            self.y_short_vector()
        }
    }

    /// The same-or-positive flag of the chosen axis.
    pub open spec fn same_or_positive_on(&self, x_axis: bool) -> bool {
        if x_axis {
            self.x_is_same_or_positive_x_short_vector()
        } else {
            self.y_is_same_or_positive_y_short_vector()
        }
    }
}

/// The flags of the points of a glyph, one entry per point, read from `off`
/// until there are at least `n`, together with the offset after them. Each
/// flag byte stands for one point, or, with its repeat flag set, for one
/// point and as many more as the byte after it says. `have` holds the flags
/// read before `off`. There is no result when the data ends too early.
pub open spec fn flags_from(b: Seq<u8>, off: int, have: Seq<u8>, n: int) -> Option<(Seq<u8>, int)>
    decreases b.len() - off,
{
    if have.len() >= n {
        Some((have, off))
    } else if !fits(b, off, 1) {
        None
    } else if SimpleFlags(b[off]).repeat_flag() {
        if !fits(b, off + 1, 1) {
            None
        } else {
            flags_from(b, off + 2, have + Seq::new((b[off + 1] + 1) as nat, |i: int| b[off]), n)
        }
    } else {
        flags_from(b, off + 1, have.push(b[off]), n)
    }
}

/// Reads the next coordinate of a point with the flags `flag` at `off`,
/// where the coordinate before was `prev`: the offset after it and its
/// value. A short coordinate is one byte that is added or subtracted; a long
/// one is either the same as before, taking no bytes, or a signed 16-bit
/// difference. There is no result when the data ends too early.
pub open spec fn coord_step(
    b: Seq<u8>,
    off: int,
    prev: int,
    flag: SimpleFlags,
    x_axis: bool,
) -> Option<(int, int)> {
    if flag.short_on(x_axis) {
        if !fits(b, off, 1) {
            None
        } else if flag.same_or_positive_on(x_axis) {
            Some((off + 1, prev + b[off]))
        } else {
            Some((off + 1, prev - b[off]))
        }
    } else if flag.same_or_positive_on(x_axis) {
        Some((off, prev))
    } else if !fits(b, off, 2) {
        None
    } else {
        Some((off + 2, prev + be_i16(b, off)))
    }
}

/// Where reading stands after the coordinates of the first `k` points on one
/// axis, read from `off` on: the offset reached and the last coordinate.
/// Coordinates start from zero.
pub open spec fn coords_after(b: Seq<u8>, off: int, flags: Seq<u8>, x_axis: bool, k: int) -> Option<
    (int, int),
>
    decreases k,
{
    if k <= 0 {
        Some((off, 0))
    } else {
        match coords_after(b, off, flags, x_axis, k - 1) {
            None => None,
            Some((at, prev)) => coord_step(b, at, prev, SimpleFlags(flags[k - 1]), x_axis),
        }
    }
}

/// The layout of a simple glyph whose data starts at `g`.
pub struct SimpleGlyph {
    pub b: Seq<u8>,
    pub g: int,
}

impl SimpleGlyph {
    /// The number of contours.
    pub open spec fn num_contours(self) -> int {
        be_i16(self.b, self.g) as int
    }

    /// The index of the last point of contour `j`.
    pub open spec fn end_point(self, j: int) -> int {
        be_u16(self.b, self.g + 10 + 2 * j) as int
    }

    /// The index of the first point of contour `j`.
    pub open spec fn contour_start(self, j: int) -> int {
        if j == 0 {
            0
        } else {
            self.end_point(j - 1) + 1
        }
    }

    /// The index after the last point of contour `j`.
    pub open spec fn contour_end(self, j: int) -> int {
        self.end_point(j) + 1
    }

    /// The number of points: one more than the last point of the last
    /// contour.
    pub open spec fn num_points(self) -> int {
        self.end_point(self.num_contours() - 1) + 1
    }

    /// Where the length of the instructions is kept.
    pub open spec fn instructions_at(self) -> int {
        self.g + 10 + 2 * self.num_contours()
    }

    /// Where the flags start: after the instructions, which are skipped.
    pub open spec fn flags_at(self) -> int {
        self.instructions_at() + 2 + be_u16(self.b, self.instructions_at())
    }

    /// The flags and the offset after them, if the data holds them all.
    pub open spec fn flags_read(self) -> Option<(Seq<u8>, int)> {
        flags_from(self.b, self.flags_at(), Seq::empty(), self.num_points())
    }

    /// The flags, one entry per point.
    pub open spec fn flags(self) -> Seq<u8> {
        self.flags_read().unwrap().0
    }

    /// Where reading stands after the first `k` x coordinates.
    pub open spec fn x_after(self, k: int) -> Option<(int, int)> {
        coords_after(self.b, self.flags_read().unwrap().1, self.flags(), true, k)
    }

    /// Where reading stands after all x coordinates and the first `k` y
    /// coordinates.
    pub open spec fn y_after(self, k: int) -> Option<(int, int)> {
        coords_after(
            self.b,
            self.x_after(self.flags().len() as int).unwrap().0,
            self.flags(),
            false,
            k,
        )
    }

    /// The x coordinate of point `k`.
    pub open spec fn x(self, k: int) -> int {
        self.x_after(k + 1).unwrap().1
    }

    /// The y coordinate of point `k`.
    pub open spec fn y(self, k: int) -> int {
        self.y_after(k + 1).unwrap().1
    }

    /// Whether contour `j` breaks a rule: it does not start after the
    /// contour before it ends, it has fewer than three points, or its first
    /// point is a control point.
    pub open spec fn contour_bad(self, j: int) -> bool {
        ||| self.contour_start(j) >= self.contour_end(j)
        ||| self.contour_end(j) - self.contour_start(j) < 3
        ||| !SimpleFlags(self.flags()[self.contour_start(j)]).on_curve_point()
    }

    /// The first check that fails when the glyph is read, if any. The data
    /// ends too early for the instruction length, the flags, the x
    /// coordinates or the y coordinates; or the glyph is malformed: the
    /// repeated flags stand for more points than the contours have, or a
    /// contour breaks a rule.
    pub open spec fn failure(self) -> Option<ImtError> {
        let src = ImtErrorSource::GlyfTable;
        if !fits(self.b, self.instructions_at(), 2) {
            Some(truncated(src))
        } else if self.flags_read().is_none() {
            Some(truncated(src))
        } else if self.x_after(self.flags().len() as int).is_none() {
            Some(truncated(src))
        } else if self.y_after(self.flags().len() as int).is_none() {
            Some(truncated(src))
        } else if self.flags().len() != self.num_points() {
            Some(malformed(src))
        } else if exists|j: int| 0 <= j < self.num_contours() && #[trigger] self.contour_bad(j) {
            Some(malformed(src))
        } else {
            None
        }
    }

    /// Whether `o` is the outline of the glyph: its contours, each point
    /// with its contour, coordinates and kind, and the bounding box and
    /// geometry that follow from them.
    pub open spec fn outline_is(self, o: Outline) -> bool {
        &&& o.contours@.len() == self.num_contours()
        &&& forall|j: int|
            0 <= j < self.num_contours() ==> (#[trigger] o.contours@[j]).start
                == self.contour_start(j) && o.contours@[j].end == self.contour_end(j)
        &&& o.points@.len() == self.num_points()
        &&& forall|k: int|
            0 <= k < self.num_points() ==> {
                &&& (#[trigger] o.points@[k]).x == self.x(k)
                &&& o.points@[k].y == self.y(k)
                &&& o.points@[k].control == !SimpleFlags(self.flags()[k]).on_curve_point()
            }
        &&& forall|j: int, k: int|
            #![trigger o.points@[k], self.contour_end(j)]
            0 <= j < self.num_contours() && self.contour_start(j) <= k < self.contour_end(j)
                ==> o.points@[k].c == j
        &&& o.contours_valid()
        &&& o.is_rebuilt()
    }
}

/// Once the data has ended too early, it stays so for every later point.
proof fn lemma_coords_none_stays(b: Seq<u8>, off: int, flags: Seq<u8>, x_axis: bool, k: int, n: int)
    requires
        0 <= k <= n,
        coords_after(b, off, flags, x_axis, k).is_none(),
    ensures
        coords_after(b, off, flags, x_axis, n).is_none(),
    decreases n - k,
{
    if k < n {
        lemma_coords_none_stays(b, off, flags, x_axis, k, n - 1);
    }
}

/// Reads the flags of `n` points from `offset` on.
fn read_flags(bytes: &[u8], offset: usize, n: usize) -> (r: Result<(Vec<u8>, usize), ImtError>)
    requires
        n <= 0x1_0000,
    ensures
        match r {
            Ok(read) => {
                &&& flags_from(bytes@, offset as int, Seq::empty(), n as int) == Some(
                    (read.0@, read.1 as int),
                )
                &&& n <= read.0@.len() <= n + 255
                &&& offset <= read.1
                &&& n > 0 ==> read.1 <= bytes@.len()
            },
            Err(e) => {
                &&& flags_from(bytes@, offset as int, Seq::empty(), n as int).is_none()
                &&& e == truncated(ImtErrorSource::GlyfTable)
            },
        },
{
    let len: usize = bytes.len();
    let mut flags: Vec<u8> = Vec::new();
    let mut at: usize = offset;
    while flags.len() < n
        invariant
            len == bytes@.len(),
            n <= 0x1_0000,
            offset <= at,
            at > offset ==> at <= len,
            flags@.len() <= n + 255,
            flags@.len() > 0 ==> at > offset,
            flags_from(bytes@, offset as int, Seq::empty(), n as int) == flags_from(
                bytes@,
                at as int,
                flags@,
                n as int,
            ),
        decreases n + 255 - flags@.len(),
    {
        let ghost before = flags@;
        if !in_bounds(len, at, 1) {
            return Err(truncated_in(ImtErrorSource::GlyfTable));
        }
        let flag: u8 = bytes[at];
        if SimpleFlags(flag).repeat_flag() {
            if !in_bounds(len, at, 2) {
                return Err(truncated_in(ImtErrorSource::GlyfTable));
            }
            let extra: usize = bytes[at + 1] as usize;
            let mut pushed: usize = 0;
            while pushed < extra + 1
                invariant
                    pushed <= extra + 1,
                    extra <= 255,
                    flags@ == before + Seq::new(pushed as nat, |i: int| flag),
                decreases extra + 1 - pushed,
            {
                flags.push(flag);
                pushed += 1;
            }
            at += 2;
        } else {
            flags.push(flag);
            at += 1;
        }
    }
    Ok((flags, at))
}

/// Reads the next coordinate on one axis for a point with the flags `flag`.
fn read_coord(bytes: &[u8], at: usize, previous: i64, flag: SimpleFlags, x_axis: bool) -> (r:
    Option<(usize, i64)>)
    requires
        at <= bytes@.len(),
        -0x1_0000_0000_0000 <= previous <= 0x1_0000_0000_0000,
    ensures
        match r {
            Some(next) => {
                &&& coord_step(bytes@, at as int, previous as int, flag, x_axis) == Some(
                    (next.0 as int, next.1 as int),
                )
                &&& at <= next.0 <= bytes@.len()
                &&& -0x8000 <= next.1 - previous <= 0x7FFF
            },
            None => coord_step(bytes@, at as int, previous as int, flag, x_axis).is_none(),
        },
{
    let src = ImtErrorSource::GlyfTable;
    let len: usize = bytes.len();
    let short: bool = if x_axis {
        flag.x_short_vector()
    } else {
        flag.y_short_vector()
    };
    let same_or_positive: bool = if x_axis {
        flag.x_is_same_or_positive_x_short_vector()
    } else {
        flag.y_is_same_or_positive_y_short_vector()
    };
    if short {
        if !in_bounds(len, at, 1) {
            return None;
        }
        let byte: i64 = bytes[at] as i64;
        if same_or_positive {
            Some((at + 1, previous + byte))
        } else {
            Some((at + 1, previous - byte))
        }
    } else if same_or_positive {
        Some((at, previous))
    } else {
        match read_i16(bytes, at, src) {
            Ok(difference) => Some((at + 2, previous + difference as i64)),
            Err(_) => None,
        }
    }
}

/// Reads one coordinate per flag on one axis from `offset` on. Each value
/// is the running sum of the differences read so far.
fn read_coords(bytes: &[u8], offset: usize, flags: &Vec<u8>, x_axis: bool) -> (r: Result<
    (Vec<i64>, usize),
    ImtError,
>)
    requires
        flags@.len() <= 0x2_0000,
        offset <= bytes@.len(),
    ensures
        match r {
            Ok(read) => {
                &&& coords_after(
                    bytes@,
                    offset as int,
                    flags@,
                    x_axis,
                    flags@.len() as int,
                ).is_some()
                &&& coords_after(
                    bytes@,
                    offset as int,
                    flags@,
                    x_axis,
                    flags@.len() as int,
                ).unwrap().0 == read.1
                &&& offset <= read.1 <= bytes@.len()
                &&& read.0@.len() == flags@.len()
                &&& forall|k: int|
                    0 <= k < read.0@.len() ==> {
                        &&& coords_after(bytes@, offset as int, flags@, x_axis, k + 1) == Some(
                            (
                                coords_after(bytes@, offset as int, flags@, x_axis, k + 1).unwrap().0,
                                #[trigger] read.0@[k] as int,
                            ),
                        )
                        &&& -0x8000 * (k + 1) <= read.0@[k] <= 0x7FFF * (k + 1)
                    }
            },
            Err(e) => {
                &&& coords_after(
                    bytes@,
                    offset as int,
                    flags@,
                    x_axis,
                    flags@.len() as int,
                ).is_none()
                &&& e == truncated(ImtErrorSource::GlyfTable)
            },
        },
{
    let count: usize = flags.len();
    let mut values: Vec<i64> = Vec::with_capacity(count);
    let mut at: usize = offset;
    let mut previous: i64 = 0;
    let mut k: usize = 0;
    while k < count
        invariant
            k <= count == flags@.len() <= 0x2_0000,
            offset <= at <= bytes@.len(),
            coords_after(bytes@, offset as int, flags@, x_axis, k as int) == Some(
                (at as int, previous as int),
            ),
            -0x8000 * k <= previous <= 0x7FFF * k,
            values@.len() == k,
            forall|j: int|
                0 <= j < k ==> {
                    &&& coords_after(bytes@, offset as int, flags@, x_axis, j + 1) == Some(
                        (
                            coords_after(bytes@, offset as int, flags@, x_axis, j + 1).unwrap().0,
                            #[trigger] values@[j] as int,
                        ),
                    )
                    &&& -0x8000 * (j + 1) <= values@[j] <= 0x7FFF * (j + 1)
                },
        decreases count - k,
    {
        let step = read_coord(bytes, at, previous, SimpleFlags(flags[k]), x_axis);
        match step {
            Some(next) => {
                at = next.0;
                previous = next.1;
            },
            None => {
                proof {
                    lemma_coords_none_stays(
                        bytes@,
                        offset as int,
                        flags@,
                        x_axis,
                        k + 1,
                        count as int,
                    );
                }
                return Err(truncated_in(ImtErrorSource::GlyfTable));
            },
        }
        values.push(previous);
        k += 1;
    }
    Ok((values, at))
}

/// Reads the simple glyph with `nc` contours whose data starts at `g`.
fn parse_simple_glyph(bytes: &[u8], g: usize, nc: usize) -> (r: Result<Outline, ImtError>)
    requires
        fits(bytes@, g as int, 10),
        nc == be_i16(bytes@, g as int),
        nc > 0,
    ensures
        match r {
            Ok(o) => (SimpleGlyph { b: bytes@, g: g as int }).failure().is_none() && (SimpleGlyph {
                b: bytes@,
                g: g as int,
            }).outline_is(o),
            Err(e) => (SimpleGlyph { b: bytes@, g: g as int }).failure() == Some(e),
        },
{
    let src = ImtErrorSource::GlyfTable;
    let ghost sg = SimpleGlyph { b: bytes@, g: g as int };
    let len: usize = bytes.len();
    if !in_bounds(len, g, 12 + nc * 2) {
        return Err(truncated_in(src));
    }
    let mut end_pts: Vec<usize> = Vec::with_capacity(nc);
    let mut j: usize = 0;
    while j < nc
        invariant
            j <= nc <= 0x7FFF,
            g + 12 + nc * 2 <= bytes@.len() <= usize::MAX,
            sg == (SimpleGlyph { b: bytes@, g: g as int }),
            end_pts@.len() == j,
            forall|i: int| 0 <= i < j ==> #[trigger] end_pts@[i] == sg.end_point(i),
        decreases nc - j,
    {
        let end_pt: usize = read_u16(bytes, g + 10 + j * 2, ImtErrorSource::GlyfTable)? as usize;
        end_pts.push(end_pt);
        j += 1;
    }
    let instructions_at: usize = g + 10 + nc * 2;
    let instructions_len: usize = read_u16(bytes, instructions_at, src)? as usize;
    let n: usize = end_pts[nc - 1] + 1;
    let flags_at: usize = match offset_sum(instructions_at + 2, instructions_len) {
        Some(at) => at,
        None => {
            return Err(truncated_in(src));
        },
    };
    let (flags, flags_end) = read_flags(bytes, flags_at, n)?;
    let (xs, xs_end) = read_coords(bytes, flags_end, &flags, true)?;
    let (ys, _) = read_coords(bytes, xs_end, &flags, false)?;
    if flags.len() != n {
        return Err(malformed_in(src));
    }
    let mut j: usize = nc;
    while j > 0
        invariant
            j <= nc <= 0x7FFF,
            sg == (SimpleGlyph { b: bytes@, g: g as int }),
            nc == sg.num_contours(),
            end_pts@.len() == nc,
            forall|i: int| 0 <= i < nc ==> #[trigger] end_pts@[i] == sg.end_point(i),
            flags@ == sg.flags(),
            flags@.len() == n == sg.num_points(),
            fits(sg.b, sg.instructions_at(), 2),
            sg.flags_read().is_some(),
            sg.x_after(flags@.len() as int).is_some(),
            sg.y_after(flags@.len() as int).is_some(),
            j > 0 ==> sg.contour_end(j - 1) <= n,
            forall|i: int| j <= i < nc ==> !(#[trigger] sg.contour_bad(i)),
            forall|i: int| j <= i < nc ==> #[trigger] sg.contour_end(i) <= n,
        decreases j,
    {
        j -= 1;
        let start: usize = if j == 0 {
            0
        } else {
            end_pts[j - 1] + 1
        };
        let end: usize = end_pts[j] + 1;
        if start >= end || end - start < 3 || !SimpleFlags(flags[start]).on_curve_point() {
            assert(sg.contour_bad(j as int));
            return Err(malformed_in(ImtErrorSource::GlyfTable));
        }
    }
    let mut points: Vec<OutlineRawPoint> = Vec::with_capacity(n);
    let mut contours: Vec<Range<usize>> = Vec::with_capacity(nc);
    let mut j: usize = 0;
    while j < nc
        invariant
            j <= nc <= 0x7FFF,
            sg == (SimpleGlyph { b: bytes@, g: g as int }),
            nc == sg.num_contours(),
            end_pts@.len() == nc,
            forall|i: int| 0 <= i < nc ==> #[trigger] end_pts@[i] == sg.end_point(i),
            flags@ == sg.flags(),
            flags@.len() == n == sg.num_points(),
            n <= 0x1_0000,
            xs@.len() == n,
            ys@.len() == n,
            forall|k: int|
                0 <= k < n ==> sg.x(k) == #[trigger] xs@[k] && -0x8000 * (k + 1) <= xs@[k] <= 0x7FFF
                    * (k + 1),
            forall|k: int|
                0 <= k < n ==> sg.y(k) == #[trigger] ys@[k] && -0x8000 * (k + 1) <= ys@[k] <= 0x7FFF
                    * (k + 1),
            forall|i: int| 0 <= i < nc ==> !(#[trigger] sg.contour_bad(i)),
            forall|i: int| 0 <= i < nc ==> #[trigger] sg.contour_end(i) <= n,
            points@.len() == sg.contour_start(j as int),
            forall|i: int| 0 <= i < j ==> #[trigger] sg.contour_end(i) <= sg.contour_start(j as int),
            contours@.len() == j,
            forall|i: int|
                0 <= i < j ==> (#[trigger] contours@[i]).start == sg.contour_start(i)
                    && contours@[i].end == sg.contour_end(i),
            forall|k: int|
                0 <= k < points@.len() ==> {
                    &&& (#[trigger] points@[k]).x == sg.x(k)
                    &&& points@[k].y == sg.y(k)
                    &&& points@[k].control == !SimpleFlags(sg.flags()[k]).on_curve_point()
                },
            forall|i: int, k: int|
                #![trigger points@[k], sg.contour_end(i)]
                0 <= i < j && sg.contour_start(i) <= k < sg.contour_end(i) ==> points@[k].c == i,
        decreases nc - j,
    {
        let start: usize = if j == 0 {
            0
        } else {
            end_pts[j - 1] + 1
        };
        let end: usize = end_pts[j] + 1;
        assert(!sg.contour_bad(j as int));
        contours.push(Range { start, end });
        let mut k: usize = start;
        while k < end
            invariant
                start <= k <= end <= n <= 0x1_0000,
                j < nc <= 0x7FFF,
                start == sg.contour_start(j as int),
                end == sg.contour_end(j as int),
                forall|i: int| 0 <= i < j ==> #[trigger] sg.contour_end(i) <= start,
                flags@ == sg.flags(),
                flags@.len() == n,
                xs@.len() == n,
                ys@.len() == n,
                forall|k: int|
                    0 <= k < n ==> sg.x(k) == #[trigger] xs@[k] && -0x8000 * (k + 1) <= xs@[k]
                        <= 0x7FFF * (k + 1),
                forall|k: int|
                    0 <= k < n ==> sg.y(k) == #[trigger] ys@[k] && -0x8000 * (k + 1) <= ys@[k]
                        <= 0x7FFF * (k + 1),
                points@.len() == k,
                forall|k: int|
                    0 <= k < points@.len() ==> {
                        &&& (#[trigger] points@[k]).x == sg.x(k)
                        &&& points@[k].y == sg.y(k)
                        &&& points@[k].control == !SimpleFlags(sg.flags()[k]).on_curve_point()
                    },
                forall|i: int, k: int|
                    #![trigger points@[k], sg.contour_end(i)]
                    0 <= i < j && sg.contour_start(i) <= k < sg.contour_end(i) ==> points@[k].c
                        == i,
                forall|m: int| start <= m < k ==> (#[trigger] points@[m]).c == j,
            decreases end - k,
        {
            let x: i64 = xs[k];
            let y: i64 = ys[k];
            points.push(
                OutlineRawPoint {
                    c: j as u16,
                    x: x as i32,
                    y: y as i32,
                    control: !SimpleFlags(flags[k]).on_curve_point(),
                },
            );
            k += 1;
        }
        j += 1;
    }
    let mut outline = Outline {
        x_min: 0,
        y_min: 0,
        x_max: 0,
        y_max: 0,
        points,
        contours,
        geometry: Vec::new(),
    };
    assert(outline.contours_valid()) by {
        assert forall|c: int| 0 <= c < outline.contours@.len() implies contour_valid(
            outline.points@,
            #[trigger] outline.contours@[c],
        ) by {
            assert(!sg.contour_bad(c));
        }
    }
    match outline.rebuild() {
        Ok(_) => {
            Ok(outline)
        },
        Err(e) => Err(e),
    }
}

impl GlyfTable {
    /// Where the data of glyph `i` starts, in a table that starts at `table`.
    pub open spec fn glyph_offset(table: int, offsets: Seq<u32>, i: int) -> int {
        table + offsets[i]
    }

    /// Whether glyph `i` has data at all.
    pub open spec fn has_data(offsets: Seq<u32>, i: int) -> bool {
        offsets[i] != offsets[i + 1]
    }

    /// Whether glyph `i` has an outline: it has data, and a positive number
    /// of contours.
    pub open spec fn has_outline(b: Seq<u8>, table: int, offsets: Seq<u32>, i: int) -> bool {
        Self::has_data(offsets, i) && be_i16(b, Self::glyph_offset(table, offsets, i)) > 0
    }

    /// The glyph `i` as a simple glyph.
    pub open spec fn simple_glyph(
        b: Seq<u8>,
        table: int,
        offsets: Seq<u32>,
        i: int,
    ) -> SimpleGlyph {
        SimpleGlyph { b, g: Self::glyph_offset(table, offsets, i) }
    }

    /// The failure of each glyph, by its id: a glyph without data never
    /// fails; one with data needs a header of ten bytes; one with a positive
    /// number of contours is read as a simple glyph.
    pub open spec fn glyph_failures(b: Seq<u8>, table: int, offsets: Seq<u32>) -> spec_fn(
        int,
    ) -> Option<ImtError> {
        |i: int|
            if !Self::has_data(offsets, i) {
                None
            } else if !fits(b, Self::glyph_offset(table, offsets, i), 10) {
                Some(truncated(ImtErrorSource::GlyfTable))
            } else if Self::has_outline(b, table, offsets, i) {
                Self::simple_glyph(b, table, offsets, i).failure()
            } else {
                None
            }
    }

    /// The first check that fails when the table is read at `table` with
    /// the offsets of the `loca` table, if any: fewer than two offsets, more
    /// offsets than glyph ids allow, the first glyph that fails.
    pub open spec fn failure(b: Seq<u8>, table: int, offsets: Seq<u32>) -> Option<ImtError> {
        if offsets.len() < 2 || offsets.len() > 0x1_0001 {
            Some(malformed(ImtErrorSource::GlyfTable))
        } else {
            first_failure(offsets.len() - 1, Self::glyph_failures(b, table, offsets))
        }
    }

    /// Whether `outlines` holds the outline of each of the first `n` glyphs
    /// that has one, and of no other glyph.
    pub open spec fn holds_outlines(
        outlines: Map<u16, Outline>,
        b: Seq<u8>,
        table: int,
        offsets: Seq<u32>,
        n: int,
    ) -> bool {
        &&& forall|id: u16|
            #[trigger] outlines.contains_key(id) <==> id < n && Self::has_outline(
                b,
                table,
                offsets,
                id as int,
            )
        &&& forall|id: u16|
            #[trigger] outlines.contains_key(id) ==> Self::simple_glyph(
                b,
                table,
                offsets,
                id as int,
            ).outline_is(outlines[id])
    }

    /// The number of points of each outline, by glyph id.
    pub open spec fn point_counts(&self) -> Map<u16, int> {
        Map::new(
            |id: u16| self.outlines@.contains_key(id),
            |id: u16| self.outlines@[id].points@.len() as int,
        )
    }

    /// The number of points of each glyph that has an outline, as the bytes
    /// at `table` spell it.
    pub open spec fn decoded_point_counts(
        b: Seq<u8>,
        table: int,
        offsets: Seq<u32>,
    ) -> Map<u16, int> {
        Map::new(
            |id: u16| id < offsets.len() - 1 && Self::has_outline(b, table, offsets, id as int),
            |id: u16| Self::simple_glyph(b, table, offsets, id as int).num_points(),
        )
    }

    /// A table that holds what the bytes spell has the numbers of points
    /// that the bytes spell.
    pub(crate) proof fn lemma_point_counts(&self, b: Seq<u8>, table: int, offsets: Seq<u32>)
        requires
            self.decodes(b, table, offsets),
        ensures
            self.point_counts() == Self::decoded_point_counts(b, table, offsets),
    {
    }

    /// Whether every outline of the table is one that a font can hold.
    pub open spec fn wf(&self) -> bool {
        forall|id: u16| #[trigger]
            self.outlines@.contains_key(id) ==> self.outlines@[id].wf()
    }

    /// The table holds what the bytes at `table` spell: the outline of each
    /// glyph that has one.
    pub open spec fn decodes(&self, b: Seq<u8>, table: int, offsets: Seq<u32>) -> bool {
        Self::holds_outlines(self.outlines@, b, table, offsets, offsets.len() - 1)
    }

    /// Reads the `glyf` table that starts at `table_offset`, with the offsets of
    /// the glyphs that the `loca` table gives.
    pub fn try_parse(bytes: &[u8], table_offset: usize, loca_table: &LocaTable) -> (r: Result<
        Self,
        ImtError,
    >)
        ensures
            match r {
                Ok(t) => {
                    &&& Self::failure(bytes@, table_offset as int, loca_table.offsets@).is_none()
                    &&& t.decodes(bytes@, table_offset as int, loca_table.offsets@)
                    &&& t.wf()
                },
                Err(e) => Self::failure(bytes@, table_offset as int, loca_table.offsets@) == Some(
                    e,
                ),
            },
    {
        let src = ImtErrorSource::GlyfTable;
        let len: usize = bytes.len();
        let count: usize = loca_table.offsets.len();
        if count < 2 || count > 0x1_0001 {
            return Err(malformed_in(src));
        }
        let ghost b = bytes@;
        let ghost table = table_offset as int;
        let ghost offsets = loca_table.offsets@;
        let ghost failures = Self::glyph_failures(b, table, offsets);
        let mut outlines: BTreeMap<u16, Outline> = BTreeMap::new();
        let mut i: usize = 0;
        while i < count - 1
            invariant
                i <= count - 1,
                2 <= count <= 0x1_0001,
                len == bytes@.len(),
                b == bytes@,
                table == table_offset,
                offsets == loca_table.offsets@,
                count == offsets.len(),
                failures == Self::glyph_failures(b, table, offsets),
                first_failure(i as int, failures).is_none(),
                Self::holds_outlines(outlines@, b, table, offsets, i as int),
            decreases count - 1 - i,
        {
            let parsed = Self::parse_glyph(bytes, table_offset, loca_table, i);
            match parsed {
                Ok(Some(outline)) => {
                    outlines.insert(i as u16, outline);
                },
                Ok(None) => {
                },
                Err(e) => {
                    proof {
                        lemma_first_failure_stays(i + 1, count - 1, failures);
                    }
                    return Err(e);
                },
            }
            i += 1;
        }
        let table = GlyfTable { outlines };
        Ok(table)
    }

    /// Reads glyph `i`: its outline, or nothing for a glyph that has none.
    fn parse_glyph(bytes: &[u8], table_offset: usize, loca_table: &LocaTable, i: usize) -> (r:
        Result<Option<Outline>, ImtError>)
        requires
            i + 1 < loca_table.offsets@.len(),
        ensures
            match r {
                Ok(Some(o)) => {
                    &&& Self::glyph_failures(bytes@, table_offset as int, loca_table.offsets@)(
                        i as int,
                    ).is_none()
                    &&& Self::has_outline(
                        bytes@,
                        table_offset as int,
                        loca_table.offsets@,
                        i as int,
                    )
                    &&& Self::simple_glyph(
                        bytes@,
                        table_offset as int,
                        loca_table.offsets@,
                        i as int,
                    ).outline_is(o)
                },
                Ok(None) => {
                    &&& Self::glyph_failures(bytes@, table_offset as int, loca_table.offsets@)(
                        i as int,
                    ).is_none()
                    &&& !Self::has_outline(
                        bytes@,
                        table_offset as int,
                        loca_table.offsets@,
                        i as int,
                    )
                },
                Err(e) => Self::glyph_failures(bytes@, table_offset as int, loca_table.offsets@)(
                    i as int,
                ) == Some(e),
            },
    {
        let src = ImtErrorSource::GlyfTable;
        let len: usize = bytes.len();
        assert(loca_table.offsets.len() == loca_table.offsets@.len());
        if loca_table.offsets[i] == loca_table.offsets[i + 1] {
            return Ok(None);
        }
        let glyph_offset: usize = match wide_offset(table_offset, loca_table.offsets[i], len) {
            Some(offset) => offset,
            None => {
                return Err(truncated_in(src));
            },
        };
        if !in_bounds(len, glyph_offset, 10) {
            return Err(truncated_in(src));
        }
        let number_of_contours: i16 = read_i16(bytes, glyph_offset, src)?;
        if number_of_contours > 0 {
            let outline = parse_simple_glyph(bytes, glyph_offset, number_of_contours as usize)?;
            Ok(Some(outline))
        } else {
            Ok(None)
        }
    }
}

} // verus!
