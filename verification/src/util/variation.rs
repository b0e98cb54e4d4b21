//! The decisions behind font variations: which variations of a glyph apply
//! at a point of the design space, which factor each axis contributes, which
//! delta moves which point, and how the delta of a point without one is
//! inferred from its neighbours. The arithmetic on real numbers that follows
//! these decisions is left to the caller.

use crate::parse::font::Font;
use crate::parse::gvar_table::{IntermediateTuples, TupleVariation};
use crate::parse::hvar_table::{HvarTable, RegionAxisCoordinates, VariationRegion};
use crate::parse::outline::{Outline, OutlineRawPoint};
use crate::parse::{F2Dot14, F2DOT14_ONE};
use crate::util::ImtUtilError;
use std::ops::Range;
use vstd::prelude::*;

verus! {

/// Where a real number lies among the fixed-point numbers of one format. A
/// number that is a fixed-point number has its raw value as `cell` and is
/// `exact`. Any other number lies between two neighbouring fixed-point
/// numbers: `cell` is the raw value of the lower one, and `exact` is false.
///
/// Normalized coordinates are placed among the 2.14 numbers, coordinates
/// that a user asks for among the 16.16 numbers.
#[derive(Debug, Clone, Copy, PartialEq, Eq)]
pub struct GridCoord {
    pub cell: i64,
    pub exact: bool,
}

impl GridCoord {
    /// Whether the number is less than the fixed-point number with the raw
    /// value `raw`.
    pub open spec fn below(self, raw: int) -> bool {
        self.cell < raw
    }

    /// Whether the number is the fixed-point number with the raw value `raw`.
    pub open spec fn at(self, raw: int) -> bool {
        self.exact && self.cell == raw
    }

    /// Whether the number is greater than the fixed-point number with the
    /// raw value `raw`.
    pub open spec fn above(self, raw: int) -> bool {
        self.cell > raw || (self.cell == raw && !self.exact)
    }

    /// Whether a normalized coordinate lies between -1 and 1.
    pub open spec fn in_range(self) -> bool {
        !self.below(-F2DOT14_ONE) && !self.above(F2DOT14_ONE as int)
    }

    /// The coordinate zero.
    pub open spec fn zero() -> GridCoord {
        GridCoord { cell: 0, exact: true }
    }

    /// The coordinate that is the 2.14 number `value`.
    pub fn from_f2dot14(value: F2Dot14) -> (r: GridCoord)
        ensures
            r.at(value as int),
    {
        GridCoord { cell: value as i64, exact: true }
    }

    /// Tells whether the number is less than the fixed-point number with the
    /// raw value `raw`.
    pub fn is_below(&self, raw: i32) -> (r: bool)
        ensures
            r == self.below(raw as int),
    {
        self.cell < raw as i64
    }

    /// Tells whether the number is the fixed-point number with the raw value
    /// `raw`.
    pub fn is_at(&self, raw: i32) -> (r: bool)
        ensures
            r == self.at(raw as int),
    {
        self.exact && self.cell == raw as i64
    }

    /// Tells whether the number is greater than the fixed-point number with
    /// the raw value `raw`.
    pub fn is_above(&self, raw: i32) -> (r: bool)
        ensures
            r == self.above(raw as int),
    {
        self.cell > raw as i64 || (self.cell == raw as i64 && !self.exact)
    }

    /// Tells whether a normalized coordinate lies between -1 and 1.
    pub fn is_in_range(&self) -> (r: bool)
        ensures
            r == self.in_range(),
    {
        !self.is_below(-(F2DOT14_ONE as i32)) && !self.is_above(F2DOT14_ONE as i32)
    }
}

/// A coordinate lies below a 2.14 number, at it or above it, and only one
/// of the three.
pub proof fn lemma_grid_trichotomy(coord: GridCoord, raw: int)
    ensures
        coord.below(raw) || coord.at(raw) || coord.above(raw),
        !(coord.below(raw) && coord.at(raw)),
        !(coord.below(raw) && coord.above(raw)),
        !(coord.at(raw) && coord.above(raw)),
{
}

/// What one axis does to a variation at a given coordinate. With `c` for the
/// coordinate and `start`, `peak` and `end` for the region of the variation
/// on the axis, the factor of the axis is as follows.
#[derive(Debug, Clone, Copy, PartialEq, Eq, Structural)]
pub enum AxisEffect {
    /// The peak is zero: the axis has no say, and no factor.
    Ignored,
    /// The coordinate is at the peak: the factor is 1.
    Full,
    /// The coordinate is outside the region or on its border: the variation
    /// does not apply at all.
    Excluded,
    /// The coordinate lies between start and peak: the factor is
    /// `(c - start) / (peak - start)`.
    Rising,
    /// The coordinate lies between peak and end: the factor is
    /// `(end - c) / (end - peak)`.
    Falling,
    /// The variation has neither start nor end: the factor is `c / peak`.
    Proportional,
}

/// What an axis with the peak `peak`, and with start and end if `interm`
/// holds them, does at the coordinate `coord`.
pub open spec fn axis_effect_of(
    coord: GridCoord,
    peak: int,
    interm: Option<(int, int)>,
) -> AxisEffect {
    if peak == 0 {
        AxisEffect::Ignored
    } else if coord.at(peak) {
        AxisEffect::Full
    } else {
        match interm {
            Some(region) => if coord.below(region.0) || coord.above(region.1) || coord.at(region.0)
                || coord.at(region.1) {
                AxisEffect::Excluded
            } else if coord.below(peak) {
                AxisEffect::Rising
            } else {
                AxisEffect::Falling
            },
            None => if coord.at(0) || (peak > 0 && coord.below(0)) || (peak < 0 && coord.above(0)) {
                AxisEffect::Excluded
            } else {
                AxisEffect::Proportional
            },
        }
    }
}

/// Whether a variation with these effects applies: no axis excludes it, and
/// at least one axis has a say.
pub open spec fn effects_apply(effects: Seq<AxisEffect>) -> bool {
    &&& forall|a: int| 0 <= a < effects.len() ==> #[trigger] effects[a] != AxisEffect::Excluded
    &&& exists|a: int| 0 <= a < effects.len() && #[trigger] effects[a] != AxisEffect::Ignored
}

/// Decides what an axis does at the coordinate `coord`.
pub fn axis_effect(coord: GridCoord, peak: F2Dot14, interm: Option<(F2Dot14, F2Dot14)>) -> (r:
    AxisEffect)
    ensures
        r == axis_effect_of(
            coord,
            peak as int,
            match interm {
                Some(region) => Some((region.0 as int, region.1 as int)),
                None => None,
            },
        ),
{
    if peak == 0 {
        AxisEffect::Ignored
    } else if coord.is_at(peak as i32) {
        AxisEffect::Full
    } else {
        match interm {
            Some(region) => {
                if coord.is_below(region.0 as i32) || coord.is_above(region.1 as i32)
                    || coord.is_at(region.0 as i32) || coord.is_at(region.1 as i32) {
                    AxisEffect::Excluded
                } else if coord.is_below(peak as i32) {
                    AxisEffect::Rising
                } else {
                    AxisEffect::Falling
                }
            },
            None => {
                if coord.is_at(0) || (peak > 0 && coord.is_below(0)) || (peak < 0 && coord.is_above(
                    0,
                )) {
                    AxisEffect::Excluded
                } else {
                    AxisEffect::Proportional
                }
            },
        }
    }
}

/// Start and end of a variation on axis `a`, if it has them.
pub open spec fn interm_on(interm: Option<IntermediateTuples>, a: int) -> Option<(int, int)> {
    match interm {
        Some(region) => Some((region.start@[a] as int, region.end@[a] as int)),
        None => None,
    }
}

/// What each axis does to the variation `tuple` at the coordinates `coords`.
pub open spec fn tuple_effects(tuple: TupleVariation, coords: Seq<GridCoord>) -> Seq<AxisEffect> {
    Seq::new(
        coords.len(),
        |a: int| axis_effect_of(coords[a], tuple.peak@[a] as int, interm_on(tuple.interm, a)),
    )
}

/// What each axis does to the region `axes` at the coordinates `coords`.
pub open spec fn region_effects(axes: Seq<RegionAxisCoordinates>, coords: Seq<GridCoord>) -> Seq<
    AxisEffect,
> {
    Seq::new(
        coords.len(),
        |a: int|
            axis_effect_of(
                coords[a],
                axes[a].peak as int,
                Some((axes[a].start as int, axes[a].end as int)),
            ),
    )
}

/// Tells whether a variation with these effects applies.
pub fn do_effects_apply(effects: &Vec<AxisEffect>) -> (r: bool)
    ensures
        r == effects_apply(effects@),
{
    let mut any: bool = false;
    let mut a: usize = 0;
    while a < effects.len()
        invariant
            a <= effects@.len(),
            forall|j: int| 0 <= j < a ==> #[trigger] effects@[j] != AxisEffect::Excluded,
            any <==> exists|j: int| 0 <= j < a && #[trigger] effects@[j] != AxisEffect::Ignored,
        decreases effects@.len() - a,
    {
        match effects[a] {
            AxisEffect::Excluded => {
                return false;
            },
            AxisEffect::Ignored => {},
            _ => {
                any = true;
            },
        }
        a += 1;
    }
    any
}

/// Decides what each axis does to the variation `tuple` at `coords`, and
/// whether the variation applies there: the effects of a variation that
/// applies, and nothing for one that does not.
pub fn tuple_effect(tuple: &TupleVariation, coords: &Vec<GridCoord>) -> (r: Option<Vec<AxisEffect>>)
    requires
        tuple.peak@.len() == coords@.len(),
        match tuple.interm {
            Some(region) => region.start@.len() == coords@.len() && region.end@.len()
                == coords@.len(),
            None => true,
        },
    ensures
        match r {
            Some(effects) => effects@ == tuple_effects(*tuple, coords@) && effects_apply(effects@),
            None => !effects_apply(tuple_effects(*tuple, coords@)),
        },
{
    let mut effects: Vec<AxisEffect> = Vec::with_capacity(coords.len());
    let mut a: usize = 0;
    while a < coords.len()
        invariant
            a <= coords@.len(),
            tuple.peak@.len() == coords@.len(),
            match tuple.interm {
                Some(region) => region.start@.len() == coords@.len() && region.end@.len()
                    == coords@.len(),
                None => true,
            },
            effects@ == Seq::new(
                a as nat,
                |j: int|
                    axis_effect_of(coords@[j], tuple.peak@[j] as int, interm_on(tuple.interm, j)),
            ),
        decreases coords@.len() - a,
    {
        let interm: Option<(F2Dot14, F2Dot14)> = match &tuple.interm {
            Some(region) => Some((region.start[a], region.end[a])),
            None => None,
        };
        effects.push(axis_effect(coords[a], tuple.peak[a], interm));
        a += 1;
    }
    if do_effects_apply(&effects) {
        Some(effects)
    } else {
        None
    }
}

/// Decides what each axis does to the region `region` at `coords`, and
/// whether the region has any effect there.
pub fn region_effect(region: &VariationRegion, coords: &Vec<GridCoord>) -> (r: Option<
    Vec<AxisEffect>,
>)
    requires
        region.axes@.len() == coords@.len(),
    ensures
        match r {
            Some(effects) => effects@ == region_effects(region.axes@, coords@) && effects_apply(
                effects@,
            ),
            None => !effects_apply(region_effects(region.axes@, coords@)),
        },
{
    let mut effects: Vec<AxisEffect> = Vec::with_capacity(coords.len());
    let mut a: usize = 0;
    while a < coords.len()
        invariant
            a <= coords@.len(),
            region.axes@.len() == coords@.len(),
            effects@ == Seq::new(
                a as nat,
                |j: int|
                    axis_effect_of(
                        coords@[j],
                        region.axes@[j].peak as int,
                        Some((region.axes@[j].start as int, region.axes@[j].end as int)),
                    ),
            ),
        decreases coords@.len() - a,
    {
        let axis = region.axes[a];
        effects.push(axis_effect(coords[a], axis.peak, Some((axis.start, axis.end))));
        a += 1;
    }
    if do_effects_apply(&effects) {
        Some(effects)
    } else {
        None
    }
}

/// A variation does not apply where, on an axis that has a say, the
/// coordinate lies on the border of the region or outside it.
pub proof fn lemma_nothing_outside_region(tuple: TupleVariation, coords: Seq<GridCoord>, a: int)
    requires
        0 <= a < coords.len(),
        tuple.interm is Some,
        tuple.peak@[a] != 0,
        !coords[a].at(tuple.peak@[a] as int),
        !coords[a].above(tuple.interm.unwrap().start@[a] as int) || !coords[a].below(
            tuple.interm.unwrap().end@[a] as int,
        ),
    ensures
        !effects_apply(tuple_effects(tuple, coords)),
{
    lemma_grid_trichotomy(coords[a], tuple.interm.unwrap().start@[a] as int);
    lemma_grid_trichotomy(coords[a], tuple.interm.unwrap().end@[a] as int);
    assert(tuple_effects(tuple, coords)[a] == AxisEffect::Excluded);
}

/// A variation applies in full where the coordinate is at the peak on
/// every axis that has a say, if any axis has: no axis contributes a factor
/// other than 1.
pub proof fn lemma_full_at_peak(tuple: TupleVariation, coords: Seq<GridCoord>)
    requires
        forall|a: int|
            0 <= a < coords.len() ==> tuple.peak@[a] == 0 || (#[trigger] coords[a]).at(
                tuple.peak@[a] as int,
            ),
        exists|a: int| 0 <= a < coords.len() && #[trigger] tuple.peak@[a] != 0,
    ensures
        effects_apply(tuple_effects(tuple, coords)),
        forall|a: int|
            0 <= a < coords.len() ==> #[trigger] tuple_effects(tuple, coords)[a]
                == AxisEffect::Ignored || tuple_effects(tuple, coords)[a] == AxisEffect::Full,
{
    let full = choose|a: int| 0 <= a < coords.len() && #[trigger] tuple.peak@[a] != 0;
    assert(tuple_effects(tuple, coords)[full] == AxisEffect::Full);
}

/// Where every coordinate is zero, a variation without start and end does
/// not apply, and neither does one that, on some axis that has a say, does
/// not hold zero strictly between its start and its end.
pub proof fn lemma_tuple_rests_at_default(tuple: TupleVariation, coords: Seq<GridCoord>)
    requires
        forall|a: int| 0 <= a < coords.len() ==> #[trigger] coords[a] == GridCoord::zero(),
        tuple.interm is None || exists|a: int|
            0 <= a < coords.len() && #[trigger] tuple.peak@[a] != 0 && !(
            tuple.interm.unwrap().start@[a] < 0 < tuple.interm.unwrap().end@[a]),
    ensures
        !effects_apply(tuple_effects(tuple, coords)),
{
    if tuple.interm is Some {
        let excluded = choose|a: int|
            0 <= a < coords.len() && #[trigger] tuple.peak@[a] != 0 && !(
            tuple.interm.unwrap().start@[a] < 0 < tuple.interm.unwrap().end@[a]);
        assert(tuple_effects(tuple, coords)[excluded] == AxisEffect::Excluded);
    }
}

/// Where every coordinate is zero, a region whose entries keep the rules
/// has no effect.
pub proof fn lemma_region_rests_at_default(axes: Seq<RegionAxisCoordinates>, coords: Seq<GridCoord>)
    requires
        axes.len() == coords.len(),
        VariationRegion::axes_valid(axes),
        forall|a: int| 0 <= a < coords.len() ==> #[trigger] coords[a] == GridCoord::zero(),
    ensures
        !effects_apply(region_effects(axes, coords)),
{
}

/// Whether every coordinate of a list lies between -1 and 1.
pub open spec fn coords_in_range(coords: Seq<GridCoord>) -> bool {
    forall|a: int| 0 <= a < coords.len() ==> (#[trigger] coords[a]).in_range()
}

/// Tells whether every coordinate of a list lies between -1 and 1.
pub fn are_coords_in_range(coords: &Vec<GridCoord>) -> (r: bool)
    ensures
        r == coords_in_range(coords@),
{
    let mut a: usize = 0;
    while a < coords.len()
        invariant
            a <= coords@.len(),
            forall|j: int| 0 <= j < a ==> (#[trigger] coords@[j]).in_range(),
        decreases coords@.len() - a,
    {
        if !coords[a].is_in_range() {
            return false;
        }
        a += 1;
    }
    true
}

impl HvarTable {
    /// The entry of the advance width map for a glyph: the index of a group
    /// of items and of an item in it. Without a map these are zero and the
    /// glyph id. A glyph past the end of the map has the last entry; an
    /// empty map has no entry for any glyph.
    pub open spec fn advance_entry(&self, glyph: int) -> Option<(int, int)> {
        match self.advance_map {
            Some(map) => if map.map_data@.len() == 0 {
                None
            } else if glyph < map.map_data@.len() {
                Some((map.map_data@[glyph]@[0] as int, map.map_data@[glyph]@[1] as int))
            } else {
                Some(
                    (
                        map.map_data@[map.map_data@.len() - 1]@[0] as int,
                        map.map_data@[map.map_data@.len() - 1]@[1] as int,
                    ),
                )
            },
            None => Some((0, glyph)),
        }
    }

    /// The delta set of the advance width of a glyph, as the index of its
    /// group and its index in the group; nothing when the entry of the
    /// glyph names a group or an item that the store does not have.
    pub open spec fn advance_set_of(&self, glyph: int) -> Option<(int, int)> {
        match self.advance_entry(glyph) {
            Some(entry) => if entry.0 < self.item_variation_store.item_data@.len() && entry.1
                < self.item_variation_store.item_data@[entry.0].delta_sets@.len() {
                Some(entry)
            } else {
                None
            },
            None => None,
        }
    }

    /// Finds the delta set of the advance width of a glyph.
    pub fn advance_delta_set(&self, glyph_index: u16) -> (r: Option<(usize, usize)>)
        ensures
            match r {
                Some(set) => self.advance_set_of(glyph_index as int) == Some(
                    (set.0 as int, set.1 as int),
                ),
                None => self.advance_set_of(glyph_index as int).is_none(),
            },
    {
        let (outer, inner): (usize, usize) = match &self.advance_map {
            Some(map) => {
                let count: usize = map.map_data.len();
                if count == 0 {
                    return None;
                }
                let index: usize = if (glyph_index as usize) < count {
                    glyph_index as usize
                } else {
                    count - 1
                };
                (map.map_data[index][0], map.map_data[index][1])
            },
            None => (0, glyph_index as usize),
        };
        if outer >= self.item_variation_store.item_data.len() {
            return None;
        }
        if inner >= self.item_variation_store.item_data[outer].delta_sets.len() {
            return None;
        }
        Some((outer, inner))
    }
}

/// What the regions of a delta set do at a point of the design space.
#[derive(Debug, Clone)]
pub struct AdvanceTerms {
    /// The index of the group of items of the delta set.
    pub outer: usize,
    /// The index of the delta set in its group.
    pub inner: usize,
    /// For each delta of the set, what each axis does to its region; nothing
    /// for a region without effect. The change of the advance width is the
    /// sum, over the regions with effect, of the delta times the factor of
    /// every axis.
    pub effects: Vec<Option<Vec<AxisEffect>>>,
}

/// Whether `found` is what the region `axes` does at `coords`: its effects
/// if it has any effect, and nothing if it has none.
pub open spec fn region_outcome_is(
    axes: Seq<RegionAxisCoordinates>,
    coords: Seq<GridCoord>,
    found: Option<Vec<AxisEffect>>,
) -> bool {
    match found {
        Some(effects) => effects@ == region_effects(axes, coords) && effects_apply(effects@),
        None => !effects_apply(region_effects(axes, coords)),
    }
}

/// Whether `terms` is what the delta set of the advance width of a glyph
/// does at `coords`.
pub open spec fn advance_terms_are(
    hvar: HvarTable,
    glyph: int,
    coords: Seq<GridCoord>,
    terms: AdvanceTerms,
) -> bool {
    let store = hvar.item_variation_store;
    &&& hvar.advance_set_of(glyph) == Some((terms.outer as int, terms.inner as int))
    &&& terms.effects@.len() == store.item_data@[terms.outer as int].region_indexes@.len()
    &&& forall|i: int|
        0 <= i < terms.effects@.len() ==> region_outcome_is(
            store.regions@[store.item_data@[terms.outer as int].region_indexes@[i] as int].axes@,
            coords,
            #[trigger] terms.effects@[i],
        )
}

/// Why the change of the advance width of a glyph cannot be told, if it
/// cannot: a coordinate lies outside the range from -1 to 1, or the font has
/// an `HVAR` table and there is not one coordinate for each of its axes.
pub open spec fn advance_failure(font: Font, coords: Seq<GridCoord>) -> Option<ImtUtilError> {
    if !coords_in_range(coords) {
        Some(ImtUtilError::InvalidCoords)
    } else if font.spec_hvar_table() is Some && coords.len()
        != font.spec_hvar_table().unwrap().item_variation_store.axis_count {
        Some(ImtUtilError::InvalidCoords)
    } else {
        None
    }
}

/// Decides which regions change the advance width of a glyph at the
/// normalized coordinates `coords`, and what each axis does to each of them.
/// There is nothing to add for a font without an `HVAR` table and for a
/// glyph without a delta set.
pub fn advance_width_terms(font: &Font, glyph_index: u16, coords: &Vec<GridCoord>) -> (r: Result<
    Option<AdvanceTerms>,
    ImtUtilError,
>)
    ensures
        match r {
            Ok(Some(terms)) => {
                &&& advance_failure(*font, coords@).is_none()
                &&& font.spec_hvar_table() is Some
                &&& advance_terms_are(
                    font.spec_hvar_table().unwrap(),
                    glyph_index as int,
                    coords@,
                    terms,
                )
            },
            Ok(None) => {
                &&& advance_failure(*font, coords@).is_none()
                &&& font.spec_hvar_table() is None || font.spec_hvar_table().unwrap().advance_set_of(
                    glyph_index as int,
                ).is_none()
            },
            Err(e) => advance_failure(*font, coords@) == Some(e),
        },
{
    proof {
        use_type_invariant(font);
    }
    if !are_coords_in_range(coords) {
        return Err(ImtUtilError::InvalidCoords);
    }
    let hvar = match font.hvar_table() {
        Some(hvar) => hvar,
        None => {
            return Ok(None);
        },
    };
    let store = &hvar.item_variation_store;
    if coords.len() != store.axis_count {
        return Err(ImtUtilError::InvalidCoords);
    }
    let (outer, inner) = match hvar.advance_delta_set(glyph_index) {
        Some(set) => set,
        None => {
            return Ok(None);
        },
    };
    let item_data = &store.item_data[outer];
    let count: usize = item_data.region_indexes.len();
    let mut effects: Vec<Option<Vec<AxisEffect>>> = Vec::with_capacity(count);
    let mut i: usize = 0;
    while i < count
        invariant
            i <= count == item_data.region_indexes@.len(),
            store.wf(),
            item_data.wf(store.regions@.len() as int),
            coords@.len() == store.axis_count,
            effects@.len() == i,
            forall|j: int|
                0 <= j < i ==> region_outcome_is(
                    store.regions@[item_data.region_indexes@[j] as int].axes@,
                    coords@,
                    #[trigger] effects@[j],
                ),
        decreases count - i,
    {
        let region_index: usize = item_data.region_indexes[i];
        let region = &store.regions[region_index];
        effects.push(region_effect(region, coords));
        i += 1;
    }
    Ok(Some(AdvanceTerms { outer, inner, effects }))
}

/// At the default of every axis no region has an effect, so the advance
/// width of no glyph changes.
pub proof fn lemma_advance_rests_at_default(
    hvar: HvarTable,
    glyph: int,
    coords: Seq<GridCoord>,
    terms: AdvanceTerms,
)
    requires
        hvar.item_variation_store.wf(),
        coords.len() == hvar.item_variation_store.axis_count,
        forall|a: int| 0 <= a < coords.len() ==> #[trigger] coords[a] == GridCoord::zero(),
        advance_terms_are(hvar, glyph, coords, terms),
    ensures
        forall|i: int| 0 <= i < terms.effects@.len() ==> (#[trigger] terms.effects@[i]) is None,
{
}

/// How the delta of a point is inferred, on one axis, from the deltas of the
/// two points around it that have one.
#[derive(Debug, Clone, Copy, PartialEq, Eq, Structural)]
pub enum Inference {
    /// The delta is that of the point before.
    Before,
    /// The delta is that of the point after.
    After,
    /// The delta is zero.
    Zero,
    /// The point lies between the two points, and its delta between theirs:
    /// it is `before_weight` times the delta of the point before plus
    /// `after_weight` times the delta of the point after, divided by `span`.
    Blend { before_weight: i64, after_weight: i64, span: i64 },
}

/// How the delta of a point at the coordinate `at` is inferred from the
/// point before it, at `before_at` with the delta `before_delta`, and the
/// point after it, at `after_at` with the delta `after_delta`. All
/// coordinates are those of the outline as the font gives it. Where the two
/// points are at the same place, the delta is theirs if they have the same,
/// and zero if not. A point that is not between them has the delta of the
/// nearer one. A point between them has a delta between theirs, in the
/// proportion of its distances to them.
pub open spec fn inference_of(
    before_at: int,
    at: int,
    after_at: int,
    before_delta: int,
    after_delta: int,
) -> Inference {
    if before_at == after_at {
        if before_delta == after_delta {
            Inference::Before
        } else {
            Inference::Zero
        }
    } else if at <= before_at && at <= after_at {
        if before_at < after_at {
            Inference::Before
        } else {
            Inference::After
        }
    } else if at >= before_at && at >= after_at {
        if before_at > after_at {
            Inference::Before
        } else {
            Inference::After
        }
    } else {
        Inference::Blend {
            before_weight: (after_at - at) as i64,
            after_weight: (at - before_at) as i64,
            span: (after_at - before_at) as i64,
        }
    }
}

/// Decides how the delta of a point is inferred on one axis.
pub fn infer_delta(before_at: i32, at: i32, after_at: i32, before_delta: i16, after_delta: i16) -> (r:
    Inference)
    ensures
        r == inference_of(
            before_at as int,
            at as int,
            after_at as int,
            before_delta as int,
            after_delta as int,
        ),
{
    if before_at == after_at {
        if before_delta == after_delta {
            Inference::Before
        } else {
            Inference::Zero
        }
    } else if at <= before_at && at <= after_at {
        if before_at < after_at {
            Inference::Before
        } else {
            Inference::After
        }
    } else if at >= before_at && at >= after_at {
        if before_at > after_at {
            Inference::Before
        } else {
            Inference::After
        }
    } else {
        Inference::Blend {
            before_weight: after_at as i64 - at as i64,
            after_weight: at as i64 - before_at as i64,
            span: after_at as i64 - before_at as i64,
        }
    }
}

/// Where the delta of a point comes from, for one variation.
#[derive(Debug, Clone, Copy, PartialEq, Eq, Structural)]
pub enum DeltaSource {
    /// The variation names no point of the contour: the point does not
    /// move.
    Nothing,
    /// The point moves by the delta with this index: its own, or that of
    /// the only point of its contour that the variation names.
    Given { delta: usize },
    /// The delta of the point is inferred from the two points that the
    /// variation names before and after it in its contour, which closes on
    /// itself: their indexes in the outline, the indexes of their deltas,
    /// and how the delta is inferred from theirs in x and in y.
    Inferred {
        before_delta: usize,
        before_point: usize,
        after_delta: usize,
        after_point: usize,
        x: Inference,
        y: Inference,
    },
}

/// The number of the first `n` point numbers that are less than `bound`. In
/// a list that never falls this is the index of the first point number that
/// is not less than `bound`.
pub open spec fn count_below(points: Seq<u16>, bound: int, n: int) -> int
    decreases n,
{
    if n <= 0 {
        0
    } else if points[n - 1] < bound {
        count_below(points, bound, n - 1) + 1
    } else {
        count_below(points, bound, n - 1)
    }
}

/// Where the delta of point `i` comes from, in a contour from `start` to
/// `end` of an outline with the points `outline`, for a variation that names
/// the points `points` and has the deltas `deltas`. The variation
/// names the points of the contour with the deltas from `lo` up to `hi`. If
/// it names none, the point does not move. If it names one, every point of
/// the contour moves by its delta. Else a point that is named moves by its
/// own delta, the first if it is named more than once; and the delta of any
/// other point is inferred from the named points around it.
pub open spec fn source_of(
    points: Seq<u16>,
    deltas: Seq<[i16; 2]>,
    outline: Seq<OutlineRawPoint>,
    start: int,
    end: int,
    i: int,
) -> DeltaSource {
    let lo = count_below(points, start, points.len() as int);
    let hi = count_below(points, end, points.len() as int);
    let at = count_below(points, i, points.len() as int);
    if hi == lo {
        DeltaSource::Nothing
    } else if hi == lo + 1 {
        DeltaSource::Given { delta: lo as usize }
    } else if at < hi && points[at] == i {
        DeltaSource::Given { delta: at as usize }
    } else {
        let before = if at == lo {
            hi - 1
        } else {
            at - 1
        };
        let after = if at == hi {
            lo
        } else {
            at
        };
        DeltaSource::Inferred {
            before_delta: before as usize,
            before_point: points[before] as usize,
            after_delta: after as usize,
            after_point: points[after] as usize,
            x: inference_of(
                outline[points[before] as int].x as int,
                outline[i].x as int,
                outline[points[after] as int].x as int,
                deltas[before]@[0] as int,
                deltas[after]@[0] as int,
            ),
            y: inference_of(
                outline[points[before] as int].y as int,
                outline[i].y as int,
                outline[points[after] as int].y as int,
                deltas[before]@[1] as int,
                deltas[after]@[1] as int,
            ),
        }
    }
}

/// Whether `sources` tells for each point of `outline` where its delta
/// comes from, for the variation `tuple`. A variation that names no points
/// has a delta for every point.
pub open spec fn sources_are(tuple: TupleVariation, outline: Outline, sources: Seq<DeltaSource>) -> bool {
    let points = tuple.points@;
    let contours = outline.contours@;
    &&& sources.len() == outline.points@.len()
    &&& points.len() == 0 ==> forall|i: int|
        0 <= i < sources.len() ==> #[trigger] sources[i] == (DeltaSource::Given {
            delta: i as usize,
        })
    &&& points.len() > 0 ==> forall|c: int, i: int|
        #![trigger contours[c], sources[i]]
        0 <= c < contours.len() && contours[c].start <= i < contours[c].end ==> sources[i]
            == source_of(
            points,
            tuple.deltas@,
            outline.points@,
            contours[c].start as int,
            contours[c].end as int,
            i,
        )
}

/// Whether a source takes its deltas from points of the outline alone, and
/// from no phantom point.
pub open spec fn source_is_real(points: Seq<u16>, num_points: int, source: DeltaSource) -> bool {
    match source {
        DeltaSource::Nothing => true,
        DeltaSource::Given { delta } => if points.len() == 0 {
            delta < num_points
        } else {
            delta < points.len() && points[delta as int] < num_points
        },
        DeltaSource::Inferred { before_delta, before_point, after_delta, after_point, .. } => {
            &&& before_delta < points.len()
            &&& after_delta < points.len()
            &&& before_point == points[before_delta as int]
            &&& after_point == points[after_delta as int]
            &&& before_point < num_points
            &&& after_point < num_points
        },
    }
}

/// Whether the point numbers of a list never fall.
pub open spec fn points_sorted(points: Seq<u16>) -> bool {
    forall|i: int, j: int| 0 <= i <= j < points.len() ==> points[i] <= points[j]
}

/// In a list that never falls, the number of point numbers below a bound
/// is the index of the first that is not below it.
proof fn lemma_count_below(points: Seq<u16>, bound: int, m: int, n: int)
    requires
        points_sorted(points),
        0 <= m <= points.len(),
        0 <= n <= points.len(),
        forall|k: int| 0 <= k < m ==> #[trigger] points[k] < bound,
        m < points.len() ==> points[m] >= bound,
    ensures
        count_below(points, bound, n) == if n <= m {
            n
        } else {
            m
        },
    decreases n,
{
    if n > 0 {
        lemma_count_below(points, bound, m, n - 1);
    }
}

/// Finds the first point number from `from` on that is not less than
/// `bound`.
fn first_at_least(points: &Vec<u16>, bound: usize, from: usize) -> (r: usize)
    requires
        points_sorted(points@),
        from <= points@.len(),
        forall|k: int| 0 <= k < from ==> #[trigger] points@[k] < bound,
    ensures
        r == count_below(points@, bound as int, points@.len() as int),
        from <= r <= points@.len(),
        forall|k: int| 0 <= k < r ==> #[trigger] points@[k] < bound,
        r < points@.len() ==> points@[r as int] >= bound,
{
    let mut m: usize = from;
    while m < points.len() && (points[m] as usize) < bound
        invariant
            from <= m <= points@.len(),
            forall|k: int| 0 <= k < m ==> #[trigger] points@[k] < bound,
        decreases points@.len() - m,
    {
        m += 1;
    }
    proof {
        lemma_count_below(points@, bound as int, m as int, points@.len() as int);
    }
    m
}

/// Decides for each point of `outline` where its delta comes from, for the
/// variation `tuple`. The contours of the outline must split its points among
/// them; the point numbers of the variation must never fall, and each must
/// have its delta, as it is in every font that has been read.
pub fn point_sources(tuple: &TupleVariation, outline: &Outline) -> (r: Vec<DeltaSource>)
    requires
        outline.contours_valid(),
        outline.contours_partition(),
        points_sorted(tuple.points@),
        tuple.points@.len() > 0 ==> tuple.deltas@.len() == tuple.points@.len(),
    ensures
        sources_are(*tuple, *outline, r@),
        forall|i: int|
            0 <= i < r@.len() ==> source_is_real(
                tuple.points@,
                outline.points@.len() as int,
                #[trigger] r@[i],
            ),
{
    let num_points: usize = outline.points.len();
    let mut sources: Vec<DeltaSource> = Vec::with_capacity(num_points);
    if tuple.points.len() == 0 {
        let mut i: usize = 0;
        while i < num_points
            invariant
                i <= num_points,
                sources@.len() == i,
                forall|j: int|
                    0 <= j < i ==> #[trigger] sources@[j] == (DeltaSource::Given {
                        delta: j as usize,
                    }),
            decreases num_points - i,
        {
            sources.push(DeltaSource::Given { delta: i });
            i += 1;
        }
        return sources;
    }
    let points = &tuple.points;
    let num_contours: usize = outline.contours.len();
    let mut c: usize = 0;
    while c < num_contours
        invariant
            c <= num_contours == outline.contours@.len(),
            outline.contours_valid(),
            outline.contours_partition(),
            num_points == outline.points@.len(),
            points@ == tuple.points@,
            points@.len() > 0,
            tuple.deltas@.len() == points@.len(),
            points_sorted(points@),
            c < num_contours ==> sources@.len() == outline.contours@[c as int].start,
            c == num_contours ==> sources@.len() == num_points,
            forall|d: int, i: int|
                #![trigger outline.contours@[d], sources@[i]]
                0 <= d < c && outline.contours@[d].start <= i < outline.contours@[d].end
                    ==> sources@[i] == source_of(
                    points@,
                    tuple.deltas@,
                    outline.points@,
                    outline.contours@[d].start as int,
                    outline.contours@[d].end as int,
                    i,
                ),
            forall|i: int|
                0 <= i < sources@.len() ==> source_is_real(
                    points@,
                    num_points as int,
                    #[trigger] sources@[i],
                ),
        decreases num_contours - c,
    {
        let start: usize = outline.contours[c].start;
        let end: usize = outline.contours[c].end;
        let lo: usize = first_at_least(points, start, 0);
        let hi: usize = first_at_least(points, end, lo);
        let ghost before = sources@;
        let mut at: usize = lo;
        let mut i: usize = start;
        while i < end
            invariant
                start <= i <= end <= num_points,
                c < num_contours == outline.contours@.len(),
                start == outline.contours@[c as int].start,
                end == outline.contours@[c as int].end,
                points@.len() > 0,
                points@ == tuple.points@,
                tuple.deltas@.len() == points@.len(),
                num_points == outline.points@.len(),
                points_sorted(points@),
                lo == count_below(points@, start as int, points@.len() as int),
                hi == count_below(points@, end as int, points@.len() as int),
                lo <= at <= hi <= points@.len(),
                forall|k: int| 0 <= k < lo ==> #[trigger] points@[k] < start,
                lo < points@.len() ==> points@[lo as int] >= start,
                forall|k: int| 0 <= k < hi ==> #[trigger] points@[k] < end,
                hi < points@.len() ==> points@[hi as int] >= end,
                forall|k: int| 0 <= k < at ==> #[trigger] points@[k] < i,
                sources@.len() == i,
                forall|j: int| 0 <= j < start ==> #[trigger] sources@[j] == before[j],
                forall|j: int|
                    start <= j < i ==> #[trigger] sources@[j] == source_of(
                        points@,
                        tuple.deltas@,
                        outline.points@,
                        start as int,
                        end as int,
                        j,
                    ),
                forall|j: int|
                    0 <= j < sources@.len() ==> source_is_real(
                        points@,
                        num_points as int,
                        #[trigger] sources@[j],
                    ),
            decreases end - i,
        {
            at = first_at_least(points, i, at);
            let source = if hi == lo {
                DeltaSource::Nothing
            } else if hi == lo + 1 {
                DeltaSource::Given { delta: lo }
            } else if at < hi && points[at] as usize == i {
                DeltaSource::Given { delta: at }
            } else {
                let before_delta: usize = if at == lo {
                    hi - 1
                } else {
                    at - 1
                };
                let after_delta: usize = if at == hi {
                    lo
                } else {
                    at
                };
                let before_point: usize = points[before_delta] as usize;
                let after_point: usize = points[after_delta] as usize;
                let before = &outline.points[before_point];
                let after = &outline.points[after_point];
                let here = &outline.points[i];
                let x = infer_delta(
                    before.x,
                    here.x,
                    after.x,
                    tuple.deltas[before_delta][0],
                    tuple.deltas[after_delta][0],
                );
                let y = infer_delta(
                    before.y,
                    here.y,
                    after.y,
                    tuple.deltas[before_delta][1],
                    tuple.deltas[after_delta][1],
                );
                DeltaSource::Inferred {
                    before_delta,
                    before_point,
                    after_delta,
                    after_point,
                    x,
                    y,
                }
            };
            sources.push(source);
            i += 1;
        }
        proof {
            assert forall|d: int, j: int|
                #![trigger outline.contours@[d], sources@[j]]
                0 <= d < c + 1 && outline.contours@[d].start <= j < outline.contours@[d].end implies sources@[j]
                == source_of(
                points@,
                tuple.deltas@,
                outline.points@,
                outline.contours@[d].start as int,
                outline.contours@[d].end as int,
                j,
            ) by {
                if d < c {
                    lemma_contours_ordered(*outline, d, c as int);
                }
            }
        }
        c += 1;
    }
    sources
}

/// In an outline whose contours split the points among them, an earlier
/// contour ends where a later one starts, or before.
proof fn lemma_contours_ordered(outline: Outline, d: int, c: int)
    requires
        outline.contours_valid(),
        outline.contours_partition(),
        0 <= d < c < outline.contours@.len(),
    ensures
        outline.contours@[d].end <= outline.contours@[c].start,
    decreases c - d,
{
    if d < c - 1 {
        lemma_contours_ordered(outline, d, c - 1);
    }
}

/// What one variation of a glyph does at a point of the design space.
#[derive(Debug, Clone)]
pub struct TuplePlan {
    /// What each axis does to the variation. The scaler of the variation is
    /// the product of the factors of all axes.
    pub effects: Vec<AxisEffect>,
    /// For each point of the outline, where its delta comes from. The point
    /// moves by that delta times the scaler.
    pub sources: Vec<DeltaSource>,
}

/// Whether `plan` is what the variation `tuple` does to `outline` at
/// `coords`: nothing if the variation does not apply there.
pub open spec fn tuple_plan_is(
    tuple: TupleVariation,
    outline: Outline,
    coords: Seq<GridCoord>,
    plan: Option<TuplePlan>,
) -> bool {
    match plan {
        Some(plan) => {
            &&& effects_apply(tuple_effects(tuple, coords))
            &&& plan.effects@ == tuple_effects(tuple, coords)
            &&& sources_are(tuple, outline, plan.sources@)
            &&& forall|i: int|
                0 <= i < plan.sources@.len() ==> source_is_real(
                    tuple.points@,
                    outline.points@.len() as int,
                    #[trigger] plan.sources@[i],
                )
        },
        None => !effects_apply(tuple_effects(tuple, coords)),
    }
}

/// Why the variations of a glyph cannot be applied, if they cannot. In
/// order: a coordinate lies outside the range from -1 to 1; the font has no
/// `gvar` table; there is not one coordinate per axis; the glyph has no
/// variation data.
pub open spec fn gvar_failure(font: Font, glyph: u16, coords: Seq<GridCoord>) -> Option<
    ImtUtilError,
> {
    if !coords_in_range(coords) {
        Some(ImtUtilError::InvalidCoords)
    } else if font.spec_gvar_table() is None {
        Some(ImtUtilError::MissingTable)
    } else if coords.len() != font.spec_gvar_table().unwrap().axis_count {
        Some(ImtUtilError::InvalidCoords)
    } else if !font.spec_gvar_table().unwrap().glyph_variations@.contains_key(glyph) {
        Some(ImtUtilError::NoData)
    } else {
        None
    }
}

/// The variations of a glyph of a font.
pub open spec fn glyph_tuples(font: Font, glyph: u16) -> Seq<TupleVariation> {
    font.spec_gvar_table().unwrap().glyph_variations@[glyph].tuples@
}

/// Decides what each variation of a glyph does to its outline at the
/// normalized coordinates `coords`: one entry per variation, in the order
/// of the `gvar` table, with nothing for a variation that does not apply.
/// The deltas of all variations that apply add up. No delta of a phantom
/// point ever moves a point of the outline.
pub fn gvar_plan(font: &Font, glyph_index: u16, coords: &Vec<GridCoord>) -> (r: Result<
    Vec<Option<TuplePlan>>,
    ImtUtilError,
>)
    ensures
        match r {
            Ok(plans) => {
                &&& gvar_failure(*font, glyph_index, coords@).is_none()
                &&& font.spec_glyf_table().outlines@.contains_key(glyph_index)
                &&& plans@.len() == glyph_tuples(*font, glyph_index).len()
                &&& forall|t: int|
                    0 <= t < plans@.len() ==> tuple_plan_is(
                        glyph_tuples(*font, glyph_index)[t],
                        font.spec_glyf_table().outlines@[glyph_index],
                        coords@,
                        #[trigger] plans@[t],
                    )
            },
            Err(e) => gvar_failure(*font, glyph_index, coords@) == Some(e),
        },
{
    proof {
        use_type_invariant(font);
    }
    if !are_coords_in_range(coords) {
        return Err(ImtUtilError::InvalidCoords);
    }
    let gvar = match font.gvar_table() {
        Some(gvar) => gvar,
        None => {
            return Err(ImtUtilError::MissingTable);
        },
    };
    if coords.len() != gvar.axis_count {
        return Err(ImtUtilError::InvalidCoords);
    }
    let variation = match gvar.glyph_variations.get(&glyph_index) {
        Some(variation) => variation,
        None => {
            return Err(ImtUtilError::NoData);
        },
    };
    let glyf = font.glyf_table();
    let outline = match glyf.outlines.get(&glyph_index) {
        Some(outline) => outline,
        None => {
            return Err(ImtUtilError::MalformedFont);
        },
    };
    let count: usize = variation.tuples.len();
    let mut plans: Vec<Option<TuplePlan>> = Vec::with_capacity(count);
    let mut t: usize = 0;
    while t < count
        invariant
            t <= count == variation.tuples@.len(),
            outline.wf(),
            variation.wf(gvar.axis_count as int, outline.points@.len() as int),
            coords@.len() == gvar.axis_count,
            plans@.len() == t,
            forall|j: int|
                0 <= j < t ==> tuple_plan_is(
                    variation.tuples@[j],
                    *outline,
                    coords@,
                    #[trigger] plans@[j],
                ),
        decreases count - t,
    {
        let tuple = &variation.tuples[t];
        let plan = match tuple_effect(tuple, coords) {
            Some(effects) => Some(TuplePlan { effects, sources: point_sources(tuple, outline) }),
            None => None,
        };
        plans.push(plan);
        t += 1;
    }
    Ok(plans)
}

} // verus!
