//! The decisions behind the normalization of axis coordinates: on which part
//! of an axis a coordinate lies, and between which breakpoints of an `avar`
//! segment map.

use crate::parse::avar_table::{AxisValueMap, SegmentMap};
use crate::parse::font::Font;
use crate::parse::fvar_table::VariationAxisRecord;
use crate::parse::F2Dot14;
use crate::util::variation::GridCoord;
use crate::util::ImtUtilError;
use vstd::prelude::*;

verus! {

/// The part of an axis on which a coordinate lies, and with it the
/// normalized coordinate. With `c` for the coordinate and `min`, `default`
/// and `max` for the values of the axis:
#[derive(Debug, Clone, Copy, PartialEq, Eq, Structural)]
pub enum AxisSegment {
    /// At or below the least value: normalized to -1.
    Minimum,
    /// At or above the greatest value: normalized to 1.
    Maximum,
    /// At the default value: normalized to 0.
    Default,
    /// Between the least and the default value: normalized to
    /// `(c - default) / (default - min)`.
    Lower,
    /// Between the default and the greatest value: normalized to
    /// `(c - default) / (max - default)`.
    Upper,
}

/// The part of an axis with the raw 16.16 values `min`, `default` and `max`
/// on which `coord` lies. The least value is looked at first, then the
/// greatest, then the default.
pub open spec fn axis_segment_of(
    coord: GridCoord,
    min: int,
    default: int,
    max: int,
) -> AxisSegment {
    if !coord.above(min) {
        AxisSegment::Minimum
    } else if !coord.below(max) {
        AxisSegment::Maximum
    } else if coord.below(default) {
        AxisSegment::Lower
    } else if coord.above(default) {
        AxisSegment::Upper
    } else {
        AxisSegment::Default
    }
}

/// Decides on which part of `axis` the coordinate `coord` lies. The
/// coordinate is placed among the 16.16 numbers.
pub fn axis_segment(coord: GridCoord, axis: &VariationAxisRecord) -> (r: AxisSegment)
    ensures
        r == axis_segment_of(
            coord,
            axis.min_value as int,
            axis.default_value as int,
            axis.max_value as int,
        ),
        !coord.above(axis.min_value as int) ==> r == AxisSegment::Minimum,
        coord.above(axis.min_value as int) && !coord.below(axis.max_value as int) ==> r
            == AxisSegment::Maximum,
        coord.above(axis.min_value as int) && coord.below(axis.max_value as int) && coord.at(
            axis.default_value as int,
        ) ==> r == AxisSegment::Default,
{
    if !coord.is_above(axis.min_value) {
        AxisSegment::Minimum
    } else if !coord.is_below(axis.max_value) {
        AxisSegment::Maximum
    } else if coord.is_below(axis.default_value) {
        AxisSegment::Lower
    } else if coord.is_above(axis.default_value) {
        AxisSegment::Upper
    } else {
        AxisSegment::Default
    }
}

/// The place of a part of an axis in the order of the parts, from the least
/// value to the greatest.
pub open spec fn segment_rank(segment: AxisSegment) -> int {
    match segment {
        AxisSegment::Minimum => 0,
        AxisSegment::Lower => 1,
        AxisSegment::Default => 2,
        AxisSegment::Upper => 3,
        AxisSegment::Maximum => 4,
    }
}

/// Whether `first` is known not to be greater than `second`: it lies in an
/// earlier cell, or in the same cell and one of them at its start.
pub open spec fn not_after(first: GridCoord, second: GridCoord) -> bool {
    first.cell < second.cell || (first.cell == second.cell && (first.exact || !second.exact))
}

/// On an axis whose least value is not above its default, and whose default
/// is not above its greatest value, a coordinate that is not greater than
/// another lies on the same part of the axis or on an earlier one: the
/// normalized coordinate never falls when the coordinate grows.
pub proof fn lemma_segments_in_order(
    first: GridCoord,
    second: GridCoord,
    min: int,
    default: int,
    max: int,
)
    requires
        min <= default <= max,
        not_after(first, second),
    ensures
        segment_rank(axis_segment_of(first, min, default, max)) <= segment_rank(
            axis_segment_of(second, min, default, max),
        ),
{
}

/// The axes of a font as the `fvar` table gives them.
pub open spec fn font_axes(font: Font) -> Seq<VariationAxisRecord> {
    font.spec_fvar_table().unwrap().axes@
}

/// On which part of its axis each coordinate lies, for one coordinate per
/// axis.
pub open spec fn axis_segments_of(axes: Seq<VariationAxisRecord>, coords: Seq<GridCoord>) -> Seq<
    AxisSegment,
> {
    Seq::new(
        coords.len(),
        |a: int|
            axis_segment_of(
                coords[a],
                axes[a].min_value as int,
                axes[a].default_value as int,
                axes[a].max_value as int,
            ),
    )
}

/// Decides for each coordinate that a user asks for on which part of its
/// axis it lies. A font without an `fvar` table has no axes; a list that
/// does not hold one coordinate per axis is refused.
pub fn axis_segments(font: &Font, coords: &Vec<GridCoord>) -> (r: Result<
    Vec<AxisSegment>,
    ImtUtilError,
>)
    ensures
        match r {
            Ok(segments) => {
                &&& font.spec_fvar_table() is Some
                &&& coords@.len() == font_axes(*font).len()
                &&& segments@ == axis_segments_of(font_axes(*font), coords@)
            },
            Err(e) => if font.spec_fvar_table() is None {
                e == ImtUtilError::MissingTable
            } else {
                e == ImtUtilError::InvalidCoords && coords@.len() != font_axes(*font).len()
            },
        },
{
    let fvar = match font.fvar_table() {
        Some(fvar) => fvar,
        None => {
            return Err(ImtUtilError::MissingTable);
        },
    };
    if coords.len() != fvar.axes.len() {
        return Err(ImtUtilError::InvalidCoords);
    }
    let mut segments: Vec<AxisSegment> = Vec::with_capacity(coords.len());
    let mut a: usize = 0;
    while a < coords.len()
        invariant
            a <= coords@.len() == fvar.axes@.len(),
            segments@ == axis_segments_of(fvar.axes@, coords@.subrange(0, a as int)),
        decreases coords@.len() - a,
    {
        segments.push(axis_segment(coords[a], &fvar.axes[a]));
        a += 1;
    }
    Ok(segments)
}

/// What a segment map does to a normalized coordinate.
#[derive(Debug, Clone, Copy, PartialEq, Eq, Structural)]
pub enum AvarStep {
    /// The map has at most three breakpoints and leaves the coordinate as it
    /// is.
    Unchanged,
    /// The coordinate is at a breakpoint and becomes `to`, the value that
    /// the breakpoint gives.
    Exact { to: F2Dot14 },
    /// The coordinate lies between the breakpoints `lower` and `lower + 1`
    /// and is interpolated between the values they give.
    Between { lower: usize },
}

/// Whether `step` is what the breakpoints `maps` do to `coord`.
pub open spec fn avar_step_is(maps: Seq<AxisValueMap>, coord: GridCoord, step: AvarStep) -> bool {
    match step {
        AvarStep::Unchanged => maps.len() <= 3,
        AvarStep::Exact { to } => maps.len() > 3 && exists|k: int|
            0 <= k < maps.len() && coord.at((#[trigger] maps[k]).from_coord as int) && to
                == maps[k].to_coord,
        AvarStep::Between { lower } => {
            &&& maps.len() > 3
            &&& lower + 1 < maps.len()
            &&& coord.above(maps[lower as int].from_coord as int)
            &&& coord.below(maps[lower + 1].from_coord as int)
        },
    }
}

/// Whether `coord` lies outside the breakpoints `maps`: before the first or
/// after the last.
pub open spec fn outside_map(maps: Seq<AxisValueMap>, coord: GridCoord) -> bool {
    maps.len() > 3 && (coord.below(maps[0].from_coord as int) || coord.above(
        maps[maps.len() - 1].from_coord as int,
    ))
}

impl SegmentMap {
    /// Decides what the map does to the normalized coordinate `coord`, which
    /// is placed among the 2.14 numbers. A coordinate outside the
    /// breakpoints of a map with more than three of them is refused.
    pub fn locate(&self, coord: GridCoord) -> (r: Result<AvarStep, ImtUtilError>)
        ensures
            match r {
                Ok(step) => avar_step_is(self.axis_value_maps@, coord, step),
                Err(e) => e == ImtUtilError::MalformedFont && outside_map(
                    self.axis_value_maps@,
                    coord,
                ),
            },
    {
        let count: usize = self.axis_value_maps.len();
        if count <= 3 {
            return Ok(AvarStep::Unchanged);
        }
        if coord.is_below(self.axis_value_maps[0].from_coord as i32) {
            return Err(ImtUtilError::MalformedFont);
        }
        let mut k: usize = 0;
        while k + 1 < count && !coord.is_below(self.axis_value_maps[k + 1].from_coord as i32)
            invariant
                k < count == self.axis_value_maps@.len(),
                !coord.below(self.axis_value_maps@[k as int].from_coord as int),
            decreases count - k,
        {
            k += 1;
        }
        if coord.is_at(self.axis_value_maps[k].from_coord as i32) {
            Ok(AvarStep::Exact { to: self.axis_value_maps[k].to_coord })
        } else if k + 1 == count {
            Err(ImtUtilError::MalformedFont)
        } else {
            Ok(AvarStep::Between { lower: k })
        }
    }
}

/// A coordinate at a breakpoint of a map with more than three breakpoints
/// becomes the value that the breakpoint gives, and nothing else.
pub proof fn lemma_breakpoint_kept(maps: Seq<AxisValueMap>, coord: GridCoord, k: int, step: AvarStep)
    requires
        SegmentMap::rising(maps),
        maps.len() > 3,
        0 <= k < maps.len(),
        coord.at(maps[k].from_coord as int),
        avar_step_is(maps, coord, step),
    ensures
        step == (AvarStep::Exact { to: maps[k].to_coord }),
        !outside_map(maps, coord),
{
    lemma_rising_orders(maps, 0, k);
    lemma_rising_orders(maps, k, maps.len() - 1);
    match step {
        AvarStep::Unchanged => {},
        AvarStep::Exact { to } => {
            let j = choose|j: int|
                0 <= j < maps.len() && coord.at((#[trigger] maps[j]).from_coord as int) && to
                    == maps[j].to_coord;
            if j < k {
                lemma_rising_orders(maps, j, k);
            } else if k < j {
                lemma_rising_orders(maps, k, j);
            }
        },
        AvarStep::Between { lower } => {
            if k <= lower {
                lemma_rising_orders(maps, k, lower as int);
            } else {
                lemma_rising_orders(maps, lower + 1, k);
            }
        },
    }
}

/// In a rising list of breakpoints an earlier breakpoint is never after a
/// later one, and two different breakpoints are never at the same place.
proof fn lemma_rising_orders(maps: Seq<AxisValueMap>, i: int, j: int)
    requires
        SegmentMap::rising(maps),
        0 <= i <= j < maps.len(),
    ensures
        maps[i].from_coord <= maps[j].from_coord,
        i < j ==> maps[i].from_coord < maps[j].from_coord,
        maps[i].to_coord <= maps[j].to_coord,
    decreases j - i,
{
    if i < j {
        lemma_rising_orders(maps, i, j - 1);
    }
}

} // verus!
