use imt::parse::avar_table::{AxisValueMap, SegmentMap};
use imt::parse::font::Font;
use imt::parse::gvar_table::{IntermediateTuples, TupleVariation};
use imt::parse::hvar_table::{RegionAxisCoordinates, VariationRegion};
use imt::raster::{base_advance, request_id, unique_id, variation_failure, ScaledGlyphErr};
use imt::util::normalize::{axis_segment, axis_segments, AvarStep, AxisSegment};
use imt::util::variation::{
    advance_width_terms, are_coords_in_range, axis_effect, do_effects_apply, gvar_plan,
    infer_delta, point_sources, region_effect, tuple_effect, AxisEffect, DeltaSource, GridCoord,
    Inference,
};
use imt::util::ImtUtilError;
use std::collections::hash_map::DefaultHasher;
use std::hash::Hasher;

const ONE: i64 = 16384;

fn at(cell: i64) -> GridCoord {
    GridCoord { cell, exact: true }
}

fn after(cell: i64) -> GridCoord {
    GridCoord { cell, exact: false }
}

fn user(value: i64) -> GridCoord {
    at(value << 16)
}

#[test]
fn coordinates_compare_with_fixed_point_numbers() {
    assert!(at(5).is_at(5));
    assert!(!at(5).is_below(5));
    assert!(!at(5).is_above(5));
    assert!(after(5).is_above(5));
    assert!(after(5).is_below(6));
    assert!(!after(5).is_at(5));
    assert!(after(-1).is_below(0));
    assert!(after(-1).is_above(-1));
    assert_eq!(GridCoord::from_f2dot14(-8192), at(-8192));
    assert!(at(ONE).is_in_range());
    assert!(at(-ONE).is_in_range());
    assert!(after(ONE - 1).is_in_range());
    assert!(!after(ONE).is_in_range());
    assert!(!after(-ONE - 1).is_in_range());
    assert!(!at(ONE + 1).is_in_range());
    assert!(are_coords_in_range(&vec![at(0), at(ONE)]));
    assert!(!are_coords_in_range(&vec![at(0), after(ONE)]));
    assert!(are_coords_in_range(&vec![]));
}

#[test]
fn a_coordinate_lies_on_one_part_of_its_axis() {
    let font = Font::from_bytes(&variable_font()).unwrap();
    let axis = &font.fvar_table().unwrap().axes[0];
    assert_eq!(axis_segment(user(700), axis), AxisSegment::Upper);
    assert_eq!(axis_segment(user(100), axis), AxisSegment::Minimum);
    assert_eq!(axis_segment(user(1500), axis), AxisSegment::Maximum);
    assert_eq!(axis_segment(user(50), axis), AxisSegment::Minimum);
    assert_eq!(axis_segment(user(1000), axis), AxisSegment::Maximum);
    assert_eq!(axis_segment(user(400), axis), AxisSegment::Default);
    assert_eq!(axis_segment(user(250), axis), AxisSegment::Lower);
    assert_eq!(axis_segment(after(100 << 16), axis), AxisSegment::Lower);
    assert_eq!(axis_segment(after((1000 << 16) - 1), axis), AxisSegment::Upper);
    assert_eq!(axis_segment(after(400 << 16), axis), AxisSegment::Upper);
    assert_eq!(axis_segment(after((400 << 16) - 1), axis), AxisSegment::Lower);
}

#[test]
fn one_coordinate_is_needed_per_axis() {
    let font = Font::from_bytes(&variable_font()).unwrap();
    assert_eq!(axis_segments(&font, &vec![user(700)]), Ok(vec![AxisSegment::Upper]));
    assert_eq!(axis_segments(&font, &vec![]), Err(ImtUtilError::InvalidCoords));
    assert_eq!(
        axis_segments(&font, &vec![user(1), user(2)]),
        Err(ImtUtilError::InvalidCoords)
    );
    let plain = Font::from_bytes(&static_font()).unwrap();
    assert_eq!(axis_segments(&plain, &vec![user(700)]), Err(ImtUtilError::MissingTable));
}

#[test]
fn a_breakpoint_gives_its_own_value() {
    let font = Font::from_bytes(&variable_font()).unwrap();
    let map = &font.avar_table().unwrap().segment_maps[0];
    assert_eq!(map.locate(at(-ONE)), Ok(AvarStep::Exact { to: -16384 }));
    assert_eq!(map.locate(at(-8192)), Ok(AvarStep::Exact { to: -4096 }));
    assert_eq!(map.locate(at(0)), Ok(AvarStep::Exact { to: 0 }));
    assert_eq!(map.locate(at(8192)), Ok(AvarStep::Exact { to: 12288 }));
    assert_eq!(map.locate(at(ONE)), Ok(AvarStep::Exact { to: 16384 }));
}

#[test]
fn other_coordinates_lie_between_two_breakpoints() {
    let font = Font::from_bytes(&variable_font()).unwrap();
    let map = &font.avar_table().unwrap().segment_maps[0];
    assert_eq!(map.locate(after(-ONE)), Ok(AvarStep::Between { lower: 0 }));
    assert_eq!(map.locate(at(-8193)), Ok(AvarStep::Between { lower: 0 }));
    assert_eq!(map.locate(after(-8192)), Ok(AvarStep::Between { lower: 1 }));
    assert_eq!(map.locate(at(1)), Ok(AvarStep::Between { lower: 2 }));
    assert_eq!(map.locate(after(8192)), Ok(AvarStep::Between { lower: 3 }));
    assert_eq!(map.locate(after(ONE - 1)), Ok(AvarStep::Between { lower: 3 }));
    assert_eq!(map.locate(after(ONE)), Err(ImtUtilError::MalformedFont));
    assert_eq!(map.locate(at(-ONE - 1)), Err(ImtUtilError::MalformedFont));
    let pair = |from_coord, to_coord| AxisValueMap { from_coord, to_coord };
    let short = SegmentMap {
        axis_value_maps: vec![pair(-16384, -16384), pair(0, 0), pair(16384, 16384)],
    };
    assert_eq!(short.locate(at(5)), Ok(AvarStep::Unchanged));
    assert_eq!(short.locate(at(70000)), Ok(AvarStep::Unchanged));
    let none = SegmentMap { axis_value_maps: vec![] };
    assert_eq!(none.locate(at(5)), Ok(AvarStep::Unchanged));
}

#[test]
fn an_axis_with_a_region_rises_and_falls() {
    let region = Some((4096, 12288));
    assert_eq!(axis_effect(at(8192), 0, region), AxisEffect::Ignored);
    assert_eq!(axis_effect(at(8192), 8192, region), AxisEffect::Full);
    assert_eq!(axis_effect(at(4095), 8192, region), AxisEffect::Excluded);
    assert_eq!(axis_effect(at(4096), 8192, region), AxisEffect::Excluded);
    assert_eq!(axis_effect(after(4096), 8192, region), AxisEffect::Rising);
    assert_eq!(axis_effect(after(8191), 8192, region), AxisEffect::Rising);
    assert_eq!(axis_effect(after(8192), 8192, region), AxisEffect::Falling);
    assert_eq!(axis_effect(after(12287), 8192, region), AxisEffect::Falling);
    assert_eq!(axis_effect(at(12288), 8192, region), AxisEffect::Excluded);
    assert_eq!(axis_effect(after(12288), 8192, region), AxisEffect::Excluded);
    assert_eq!(axis_effect(at(0), 8192, Some((-4096, 12288))), AxisEffect::Rising);
}

#[test]
fn an_axis_without_a_region_is_proportional() {
    assert_eq!(axis_effect(at(5), 0, None), AxisEffect::Ignored);
    assert_eq!(axis_effect(at(16384), 16384, None), AxisEffect::Full);
    assert_eq!(axis_effect(at(8192), 16384, None), AxisEffect::Proportional);
    assert_eq!(axis_effect(after(0), 16384, None), AxisEffect::Proportional);
    assert_eq!(axis_effect(at(0), 16384, None), AxisEffect::Excluded);
    assert_eq!(axis_effect(at(-1), 16384, None), AxisEffect::Excluded);
    assert_eq!(axis_effect(after(-1), 16384, None), AxisEffect::Excluded);
    assert_eq!(axis_effect(at(-8192), -16384, None), AxisEffect::Proportional);
    assert_eq!(axis_effect(at(0), -16384, None), AxisEffect::Excluded);
    assert_eq!(axis_effect(after(0), -16384, None), AxisEffect::Excluded);
    assert_eq!(axis_effect(at(12288), 8192, None), AxisEffect::Proportional);
}

#[test]
fn a_variation_applies_when_an_axis_has_a_say_and_none_excludes() {
    let (excluded, full) = (AxisEffect::Excluded, AxisEffect::Full);
    let (ignored, rising) = (AxisEffect::Ignored, AxisEffect::Rising);
    assert!(do_effects_apply(&vec![ignored, full]));
    assert!(do_effects_apply(&vec![rising]));
    assert!(!do_effects_apply(&vec![ignored, ignored]));
    assert!(!do_effects_apply(&vec![]));
    assert!(!do_effects_apply(&vec![full, excluded]));
    assert!(!do_effects_apply(&vec![excluded, full]));
}

fn tuple(peak: Vec<i16>, interm: Option<(Vec<i16>, Vec<i16>)>, points: Vec<u16>) -> TupleVariation {
    let count = if points.is_empty() { 7 } else { points.len() };
    TupleVariation {
        peak,
        interm: interm.map(|(start, end)| IntermediateTuples { start, end }),
        points,
        deltas: vec![[1, 1]; count],
    }
}

#[test]
fn the_effects_of_a_variation_are_those_of_its_axes() {
    let plain = tuple(vec![16384, 0, -16384], None, vec![]);
    assert_eq!(
        tuple_effect(&plain, &vec![at(16384), at(77), at(-4096)]),
        Some(vec![AxisEffect::Full, AxisEffect::Ignored, AxisEffect::Proportional])
    );
    assert_eq!(tuple_effect(&plain, &vec![at(16384), at(77), at(4096)]), None);
    assert_eq!(tuple_effect(&plain, &vec![at(0), at(0), at(0)]), None);
    let ranged = tuple(vec![8192, 0], Some((vec![4096, 0], vec![12288, 0])), vec![]);
    assert_eq!(
        tuple_effect(&ranged, &vec![at(6000), at(0)]),
        Some(vec![AxisEffect::Rising, AxisEffect::Ignored])
    );
    assert_eq!(
        tuple_effect(&ranged, &vec![at(8192), at(500)]),
        Some(vec![AxisEffect::Full, AxisEffect::Ignored])
    );
    assert_eq!(tuple_effect(&ranged, &vec![at(12288), at(0)]), None);
    assert_eq!(tuple_effect(&ranged, &vec![at(0), at(0)]), None);
    let silent = tuple(vec![0, 0], None, vec![]);
    assert_eq!(tuple_effect(&silent, &vec![at(0), at(0)]), None);
    assert_eq!(tuple_effect(&silent, &vec![at(5), at(5)]), None);
}

#[test]
fn the_effects_of_a_region_are_those_of_its_axes() {
    let axis = |start, peak, end| RegionAxisCoordinates { start, peak, end };
    let region = VariationRegion { axes: vec![axis(0, 16384, 16384), axis(-16384, -8192, 0)] };
    assert_eq!(
        region_effect(&region, &vec![at(8192), at(-8192)]),
        Some(vec![AxisEffect::Rising, AxisEffect::Full])
    );
    assert_eq!(
        region_effect(&region, &vec![at(16384), at(-100)]),
        Some(vec![AxisEffect::Full, AxisEffect::Falling])
    );
    assert_eq!(region_effect(&region, &vec![at(0), at(0)]), None);
    assert_eq!(region_effect(&region, &vec![at(8192), at(0)]), None);
    assert_eq!(region_effect(&region, &vec![at(8192), at(1)]), None);
}

fn inferred(
    before: (usize, usize),
    after: (usize, usize),
    x: Inference,
    y: Inference,
) -> DeltaSource {
    DeltaSource::Inferred {
        before_delta: before.0,
        before_point: before.1,
        after_delta: after.0,
        after_point: after.1,
        x,
        y,
    }
}

fn blend(before_weight: i64, after_weight: i64, span: i64) -> Inference {
    Inference::Blend { before_weight, after_weight, span }
}

#[test]
fn a_delta_is_inferred_from_the_points_around() {
    assert_eq!(infer_delta(10, 99, 10, 4, 4), Inference::Before);
    assert_eq!(infer_delta(10, 99, 10, 4, 5), Inference::Zero);
    assert_eq!(infer_delta(10, 10, 20, 4, 5), Inference::Before);
    assert_eq!(infer_delta(10, -3, 20, 4, 5), Inference::Before);
    assert_eq!(infer_delta(20, 10, 10, 4, 5), Inference::After);
    assert_eq!(infer_delta(10, 20, 20, 4, 5), Inference::After);
    assert_eq!(infer_delta(20, 25, 10, 4, 5), Inference::Before);
    assert_eq!(infer_delta(10, 12, 20, 4, 5), blend(8, 2, 10));
    assert_eq!(infer_delta(20, 12, 10, 4, 5), blend(-2, -8, -10));
    assert_eq!(
        infer_delta(i32::MIN, 0, i32::MAX, 1, 2),
        blend(i32::MAX as i64, -(i32::MIN as i64), u32::MAX as i64)
    );
}

fn given(delta: usize) -> DeltaSource {
    DeltaSource::Given { delta }
}

#[test]
fn every_point_has_a_delta_when_no_points_are_named() {
    let font = Font::from_bytes(&variable_font()).unwrap();
    let outline = font.glyf_table().outlines.get(&1).unwrap();
    let all = tuple(vec![16384], None, vec![]);
    assert_eq!(point_sources(&all, outline), vec![given(0), given(1), given(2)]);
}

#[test]
fn deltas_are_inferred_between_named_points() {
    let font = Font::from_bytes(&variable_font()).unwrap();
    let outline = font.glyf_table().outlines.get(&2).unwrap();
    let (before, after) = (Inference::Before, Inference::After);
    assert_eq!(
        point_sources(&tuple(vec![1], None, vec![1, 3]), outline),
        vec![
            inferred((1, 3), (0, 1), after, before),
            given(0),
            inferred((0, 1), (1, 3), blend(100, 200, 300), before),
            given(1),
        ]
    );
    assert_eq!(
        point_sources(&tuple(vec![1], None, vec![0, 1]), outline),
        vec![
            given(0),
            given(1),
            inferred((1, 1), (0, 0), before, before),
            inferred((1, 1), (0, 0), before, after),
        ]
    );
    assert_eq!(
        point_sources(&tuple(vec![1], None, vec![2]), outline),
        vec![given(0), given(0), given(0), given(0)]
    );
    let same = inferred((1, 2), (0, 2), before, before);
    assert_eq!(
        point_sources(&tuple(vec![1], None, vec![2, 2]), outline),
        vec![same, same, given(0), same]
    );
    let mut uneven = tuple(vec![1], None, vec![2, 2]);
    uneven.deltas = vec![[1, 1], [1, 9]];
    let zero_in_y = inferred((1, 2), (0, 2), before, Inference::Zero);
    assert_eq!(point_sources(&uneven, outline), vec![zero_in_y, zero_in_y, given(0), zero_in_y]);
}

#[test]
fn phantom_points_move_no_point_of_the_outline() {
    let font = Font::from_bytes(&variable_font()).unwrap();
    let outline = font.glyf_table().outlines.get(&2).unwrap();
    let nothing = DeltaSource::Nothing;
    assert_eq!(
        point_sources(&tuple(vec![1], None, vec![4, 5, 6, 7]), outline),
        vec![nothing, nothing, nothing, nothing]
    );
    assert_eq!(
        point_sources(&tuple(vec![1], None, vec![3, 4, 7]), outline),
        vec![given(0), given(0), given(0), given(0)]
    );
    assert_eq!(
        point_sources(&tuple(vec![1], None, vec![0, 2, 5, 6]), outline),
        vec![
            given(0),
            inferred((0, 0), (1, 2), blend(200, 100, 300), Inference::After),
            given(1),
            inferred((1, 2), (0, 0), Inference::Before, Inference::After),
        ]
    );
}

#[test]
fn each_contour_has_its_own_named_points() {
    let font = Font::from_bytes(&variable_font()).unwrap();
    let mut outline = font.glyf_table().outlines.get(&1).unwrap().clone();
    let extra: Vec<_> = outline.points.iter().map(|p| {
        let mut q = *p;
        q.c = 1;
        q
    }).collect();
    outline.points.extend(extra.clone());
    outline.points.extend(extra);
    outline.contours = vec![0..3, 3..6, 6..9];
    outline.rebuild().unwrap();
    assert_eq!(
        point_sources(&tuple(vec![1], None, vec![1, 3, 5]), &outline),
        vec![
            given(0),
            given(0),
            given(0),
            given(1),
            inferred((1, 3), (2, 5), Inference::After, Inference::Before),
            given(2),
            DeltaSource::Nothing,
            DeltaSource::Nothing,
            DeltaSource::Nothing,
        ]
    );
}

#[test]
fn the_plan_of_a_glyph_has_one_entry_per_variation() {
    let font = Font::from_bytes(&variable_font()).unwrap();
    let plans = gvar_plan(&font, 1, &vec![at(ONE)]).unwrap();
    assert_eq!(plans.len(), 2);
    let first = plans[0].as_ref().unwrap();
    assert_eq!(first.effects, vec![AxisEffect::Full]);
    assert_eq!(first.sources, vec![given(0), given(1), given(2)]);
    assert!(plans[1].is_none());
    let plans = gvar_plan(&font, 1, &vec![at(6144)]).unwrap();
    assert_eq!(plans[0].as_ref().unwrap().effects, vec![AxisEffect::Proportional]);
    let second = plans[1].as_ref().unwrap();
    assert_eq!(second.effects, vec![AxisEffect::Rising]);
    assert_eq!(
        second.sources,
        vec![given(0), inferred((0, 0), (1, 2), Inference::After, Inference::Before), given(1)]
    );
    let plans = gvar_plan(&font, 1, &vec![at(0)]).unwrap();
    assert!(plans.iter().all(|plan| plan.is_none()));
    let plans = gvar_plan(&font, 1, &vec![at(-ONE)]).unwrap();
    assert!(plans.iter().all(|plan| plan.is_none()));
}

#[test]
fn requests_that_cannot_be_planned_are_refused() {
    let font = Font::from_bytes(&variable_font()).unwrap();
    assert_eq!(gvar_plan(&font, 1, &vec![after(ONE)]).unwrap_err(), ImtUtilError::InvalidCoords);
    assert_eq!(gvar_plan(&font, 1, &vec![]).unwrap_err(), ImtUtilError::InvalidCoords);
    assert_eq!(
        gvar_plan(&font, 1, &vec![at(0), at(0)]).unwrap_err(),
        ImtUtilError::InvalidCoords
    );
    assert_eq!(gvar_plan(&font, 2, &vec![at(0)]).unwrap_err(), ImtUtilError::NoData);
    assert_eq!(gvar_plan(&font, 0, &vec![at(0)]).unwrap_err(), ImtUtilError::NoData);
    assert_eq!(gvar_plan(&font, 9, &vec![at(0)]).unwrap_err(), ImtUtilError::NoData);
    let plain = Font::from_bytes(&static_font()).unwrap();
    assert_eq!(gvar_plan(&plain, 1, &vec![]).unwrap_err(), ImtUtilError::MissingTable);
    assert_eq!(gvar_plan(&plain, 1, &vec![after(ONE)]).unwrap_err(), ImtUtilError::InvalidCoords);
}

#[test]
fn the_advance_width_changes_with_the_regions_that_have_an_effect() {
    let font = Font::from_bytes(&variable_font()).unwrap();
    let terms = advance_width_terms(&font, 1, &vec![at(8192)]).unwrap().unwrap();
    assert_eq!((terms.outer, terms.inner), (0, 1));
    assert_eq!(terms.effects, vec![Some(vec![AxisEffect::Rising])]);
    let terms = advance_width_terms(&font, 2, &vec![at(ONE)]).unwrap().unwrap();
    assert_eq!((terms.outer, terms.inner), (0, 2));
    assert_eq!(terms.effects, vec![Some(vec![AxisEffect::Full])]);
    let terms = advance_width_terms(&font, 700, &vec![at(ONE)]).unwrap().unwrap();
    assert_eq!((terms.outer, terms.inner), (0, 2));
    let terms = advance_width_terms(&font, 0, &vec![at(0)]).unwrap().unwrap();
    assert_eq!(terms.effects, vec![None]);
    let terms = advance_width_terms(&font, 0, &vec![at(-ONE)]).unwrap().unwrap();
    assert_eq!(terms.effects, vec![None]);
}

#[test]
fn advance_requests_are_checked() {
    let font = Font::from_bytes(&variable_font()).unwrap();
    assert_eq!(
        advance_width_terms(&font, 1, &vec![at(ONE + 1)]).unwrap_err(),
        ImtUtilError::InvalidCoords
    );
    assert_eq!(advance_width_terms(&font, 1, &vec![]).unwrap_err(), ImtUtilError::InvalidCoords);
    let plain = Font::from_bytes(&static_font()).unwrap();
    assert!(advance_width_terms(&plain, 1, &vec![at(1), at(2)]).unwrap().is_none());
    assert_eq!(
        advance_width_terms(&plain, 1, &vec![at(-ONE - 1)]).unwrap_err(),
        ImtUtilError::InvalidCoords
    );
    let mut tables = variable_tables();
    let hvar = tables.iter_mut().find(|(tag, _)| *tag == b"HVAR").unwrap();
    hvar.1[59] = 3;
    let odd = Font::from_bytes(&font_with(&tables)).unwrap();
    assert!(advance_width_terms(&odd, 2, &vec![at(ONE)]).unwrap().is_none());
    assert!(advance_width_terms(&odd, 1, &vec![at(ONE)]).unwrap().is_some());
    hvar_without_map_uses_the_glyph_id();
}

fn hvar_without_map_uses_the_glyph_id() {
    let mut tables = variable_tables();
    let hvar = tables.iter_mut().find(|(tag, _)| *tag == b"HVAR").unwrap();
    hvar.1[8..12].copy_from_slice(&[0, 0, 0, 0]);
    let font = Font::from_bytes(&font_with(&tables)).unwrap();
    let hvar = font.hvar_table().unwrap();
    assert!(hvar.advance_map.is_none());
    assert_eq!(hvar.advance_delta_set(2), Some((0, 2)));
    assert_eq!(hvar.advance_delta_set(3), None);
    assert!(advance_width_terms(&font, 3, &vec![at(ONE)]).unwrap().is_none());
}

#[test]
fn the_base_advance_comes_from_the_metrics() {
    let font = Font::from_bytes(&variable_font()).unwrap();
    assert!(font.glyf_table().outlines.get(&0).is_none());
    assert_eq!(base_advance(&font, 0), Ok(600));
    assert_eq!(base_advance(&font, 1), Ok(550));
    assert_eq!(base_advance(&font, 2), Ok(550));
    assert_eq!(base_advance(&font, 3), Err(ScaledGlyphErr::Missing));
}

#[test]
fn a_fingerprint_depends_on_the_request_alone() {
    let size = 12.5f32.to_bits();
    let coords = vec![0.5f32.to_bits(), (-1.0f32).to_bits()];
    let id = unique_id(65, size, Some(&coords), 0);
    assert_eq!(id, unique_id(65, size, Some(&coords.clone()), 9));
    assert_ne!(id, unique_id(66, size, Some(&coords), 0));
    assert_ne!(id, unique_id(65, 13.0f32.to_bits(), Some(&coords), 0));
    assert_ne!(id, unique_id(65, size, Some(&vec![coords[1], coords[0]]), 0));
    assert_ne!(id, unique_id(65, size, Some(&coords[..1].to_vec()), 0));
    assert_eq!(unique_id(65, size, None, 2), unique_id(65, size, Some(&vec![0, 0]), 0));
    assert_ne!(unique_id(65, size, None, 2), unique_id(65, size, None, 3));
    let mut hasher = DefaultHasher::new();
    hasher.write(&65u16.to_le_bytes());
    hasher.write(&size.to_le_bytes());
    for bits in &coords {
        hasher.write(&bits.to_le_bytes());
    }
    assert_eq!(id, hasher.finish());
}

#[test]
fn a_request_without_coordinates_counts_the_axes_of_the_font() {
    let font = Font::from_bytes(&variable_font()).unwrap();
    let size = 20.0f32.to_bits();
    assert_eq!(request_id(&font, 1, size, None), unique_id(1, size, Some(&vec![0]), 0));
    assert_eq!(request_id(&font, 1, size, Some(&vec![5, 6])), unique_id(1, size, Some(&vec![5, 6]), 0));
    let plain = Font::from_bytes(&static_font()).unwrap();
    assert_eq!(request_id(&plain, 1, size, None), unique_id(1, size, None, 0));
    assert_ne!(request_id(&plain, 1, size, None), request_id(&font, 1, size, None));
}

#[test]
fn only_some_failures_end_the_scaling_of_a_glyph() {
    assert_eq!(variation_failure(ImtUtilError::InvalidCoords), Some(ScaledGlyphErr::InvalidCoords));
    assert_eq!(variation_failure(ImtUtilError::MalformedFont), Some(ScaledGlyphErr::Malformed));
    assert_eq!(variation_failure(ImtUtilError::NoData), None);
    assert_eq!(variation_failure(ImtUtilError::MissingTable), None);
}

#[test]
fn a_greater_coordinate_never_lies_on_an_earlier_part() {
    let font = Font::from_bytes(&variable_font()).unwrap();
    let axis = &font.fvar_table().unwrap().axes[0];
    let rank = |segment| match segment {
        AxisSegment::Minimum => 0,
        AxisSegment::Lower => 1,
        AxisSegment::Default => 2,
        AxisSegment::Upper => 3,
        AxisSegment::Maximum => 4,
    };
    let places = [
        user(0),
        user(100),
        after(100 << 16),
        user(399),
        user(400),
        after(400 << 16),
        user(999),
        after((1000 << 16) - 1),
        user(1000),
        user(2000),
    ];
    let ranks: Vec<i32> = places.iter().map(|place| rank(axis_segment(*place, axis))).collect();
    assert_eq!(ranks, vec![0, 0, 1, 1, 2, 3, 3, 3, 4, 4]);
    assert!(ranks.windows(2).all(|pair| pair[0] <= pair[1]));
}

#[test]
fn an_axis_whose_default_is_its_least_value_has_no_lower_part() {
    let font = Font::from_bytes(&variable_font()).unwrap();
    let mut axis = font.fvar_table().unwrap().axes[0];
    axis.min_value = axis.default_value;
    assert_eq!(axis_segment(user(400), &axis), AxisSegment::Minimum);
    assert_eq!(axis_segment(after(400 << 16), &axis), AxisSegment::Upper);
}
fn put16(out: &mut Vec<u8>, v: u16) {
    out.extend_from_slice(&v.to_be_bytes());
}

fn put_i16(out: &mut Vec<u8>, v: i16) {
    out.extend_from_slice(&v.to_be_bytes());
}

fn put32(out: &mut Vec<u8>, v: u32) {
    out.extend_from_slice(&v.to_be_bytes());
}

fn head_table(units_per_em: u16, loca_format: i16) -> Vec<u8> {
    let mut t = Vec::new();
    put16(&mut t, 1);
    put16(&mut t, 0);
    put32(&mut t, 0x0001_8000);
    put32(&mut t, 0x1234_5678);
    put32(&mut t, 0x5F0F_3CF5);
    put16(&mut t, 0x000B);
    put16(&mut t, units_per_em);
    t.extend_from_slice(&(-2i64).to_be_bytes());
    t.extend_from_slice(&(3i64).to_be_bytes());
    put_i16(&mut t, -10);
    put_i16(&mut t, -20);
    put_i16(&mut t, 500);
    put_i16(&mut t, 700);
    put16(&mut t, 0);
    put16(&mut t, 8);
    put_i16(&mut t, 2);
    put_i16(&mut t, loca_format);
    put_i16(&mut t, 0);
    t
}

fn hhea_table(number_of_h_metrics: u16) -> Vec<u8> {
    let mut t = Vec::new();
    put16(&mut t, 1);
    put16(&mut t, 0);
    put_i16(&mut t, 800);
    put_i16(&mut t, -200);
    put_i16(&mut t, 90);
    put16(&mut t, 600);
    put_i16(&mut t, -5);
    put_i16(&mut t, -6);
    put_i16(&mut t, 510);
    put_i16(&mut t, 1);
    put_i16(&mut t, 0);
    put_i16(&mut t, 0);
    for _ in 0..4 {
        put_i16(&mut t, 0);
    }
    put_i16(&mut t, 0);
    put16(&mut t, number_of_h_metrics);
    t
}

fn maxp_table(num_glyphs: u16) -> Vec<u8> {
    let mut t = Vec::new();
    put32(&mut t, 0x0000_5000);
    put16(&mut t, num_glyphs);
    t
}

fn hmtx_table() -> Vec<u8> {
    let mut t = Vec::new();
    put16(&mut t, 600);
    put_i16(&mut t, 0);
    put16(&mut t, 550);
    put_i16(&mut t, 10);
    put_i16(&mut t, 5);
    t
}

fn triangle_glyph() -> Vec<u8> {
    let mut g = Vec::new();
    put_i16(&mut g, 1);
    put_i16(&mut g, 0);
    put_i16(&mut g, 0);
    put_i16(&mut g, 500);
    put_i16(&mut g, 700);
    put16(&mut g, 2);
    put16(&mut g, 0);
    g.extend_from_slice(&[0x01, 0x01, 0x01]);
    put_i16(&mut g, 0);
    put_i16(&mut g, 500);
    put_i16(&mut g, -250);
    put_i16(&mut g, 0);
    put_i16(&mut g, 0);
    put_i16(&mut g, 700);
    g.push(0);
    g
}

fn curve_glyph() -> Vec<u8> {
    let mut g = Vec::new();
    put_i16(&mut g, 1);
    put_i16(&mut g, 0);
    put_i16(&mut g, 0);
    put_i16(&mut g, 400);
    put_i16(&mut g, 200);
    put16(&mut g, 3);
    put16(&mut g, 0);
    g.extend_from_slice(&[0x01, 0x00, 0x00, 0x01]);
    put_i16(&mut g, 0);
    put_i16(&mut g, 100);
    put_i16(&mut g, 200);
    put_i16(&mut g, 100);
    put_i16(&mut g, 0);
    put_i16(&mut g, 200);
    put_i16(&mut g, 0);
    put_i16(&mut g, -200);
    g
}

fn glyf_and_loca() -> (Vec<u8>, Vec<u8>) {
    let first = triangle_glyph();
    let second = curve_glyph();
    let mut loca = Vec::new();
    put16(&mut loca, 0);
    put16(&mut loca, 0);
    put16(&mut loca, (first.len() / 2) as u16);
    put16(&mut loca, ((first.len() + second.len()) / 2) as u16);
    let mut glyf = first;
    glyf.extend_from_slice(&second);
    (glyf, loca)
}

fn cmap_table() -> Vec<u8> {
    let mut t = Vec::new();
    put16(&mut t, 0);
    put16(&mut t, 1);
    put16(&mut t, 3);
    put16(&mut t, 1);
    put32(&mut t, 12);
    put16(&mut t, 4);
    put16(&mut t, 32);
    put16(&mut t, 7);
    put16(&mut t, 4);
    put16(&mut t, 4);
    put16(&mut t, 1);
    put16(&mut t, 0);
    put16(&mut t, 66);
    put16(&mut t, 0xFFFF);
    put16(&mut t, 0);
    put16(&mut t, 65);
    put16(&mut t, 0xFFFF);
    put_i16(&mut t, -64);
    put_i16(&mut t, 1);
    put16(&mut t, 0);
    put16(&mut t, 0);
    t
}

fn name_table() -> Vec<u8> {
    let mut t = Vec::new();
    put16(&mut t, 0);
    put16(&mut t, 1);
    put16(&mut t, 18);
    put16(&mut t, 3);
    put16(&mut t, 1);
    put16(&mut t, 0x0409);
    put16(&mut t, 1);
    put16(&mut t, 4);
    put16(&mut t, 0);
    t.extend_from_slice(&[0x00, 0x48, 0x00, 0x69]);
    t
}

fn fvar_table() -> Vec<u8> {
    let mut t = Vec::new();
    put16(&mut t, 1);
    put16(&mut t, 0);
    put16(&mut t, 16);
    put16(&mut t, 2);
    put16(&mut t, 1);
    put16(&mut t, 20);
    put16(&mut t, 1);
    put16(&mut t, 8);
    t.extend_from_slice(b"wght");
    put32(&mut t, 100 << 16);
    put32(&mut t, 400 << 16);
    put32(&mut t, 1000 << 16);
    put16(&mut t, 0);
    put16(&mut t, 256);
    put16(&mut t, 257);
    put16(&mut t, 0);
    put32(&mut t, 700 << 16);
    t
}

fn avar_table() -> Vec<u8> {
    let mut t = Vec::new();
    put16(&mut t, 1);
    put16(&mut t, 0);
    put16(&mut t, 0);
    put16(&mut t, 1);
    put16(&mut t, 5);
    for (from, to) in [(-16384i16, -16384i16), (-8192, -4096), (0, 0), (8192, 12288), (16384, 16384)]
    {
        put_i16(&mut t, from);
        put_i16(&mut t, to);
    }
    t
}

fn gvar_glyph_data() -> Vec<u8> {
    let mut d = Vec::new();
    put16(&mut d, 2);
    put16(&mut d, 18);
    put16(&mut d, 9);
    put16(&mut d, 0);
    put16(&mut d, 10);
    put16(&mut d, 0x8000 | 0x4000 | 0x2000);
    put_i16(&mut d, 8192);
    put_i16(&mut d, 4096);
    put_i16(&mut d, 12288);
    d.extend_from_slice(&[0x02, 10, 20, 30, 0x83, 0x81, 0x00, 40, 0x83]);
    d.extend_from_slice(&[0x02, 0x01, 0, 2, 0x01, 5, 0xFB, 0x01, 7, 7]);
    d.push(0);
    d
}

fn gvar_table() -> Vec<u8> {
    let data = gvar_glyph_data();
    let mut t = Vec::new();
    put16(&mut t, 1);
    put16(&mut t, 0);
    put16(&mut t, 1);
    put16(&mut t, 1);
    put32(&mut t, 28);
    put16(&mut t, 3);
    put16(&mut t, 0);
    put32(&mut t, 30);
    put16(&mut t, 0);
    put16(&mut t, 0);
    put16(&mut t, (data.len() / 2) as u16);
    put16(&mut t, (data.len() / 2) as u16);
    put_i16(&mut t, 16384);
    t.extend_from_slice(&data);
    t
}

fn hvar_table() -> Vec<u8> {
    let mut t = Vec::new();
    put16(&mut t, 1);
    put16(&mut t, 0);
    put32(&mut t, 20);
    put32(&mut t, 53);
    put32(&mut t, 0);
    put32(&mut t, 0);
    put16(&mut t, 1);
    put32(&mut t, 12);
    put16(&mut t, 1);
    put32(&mut t, 22);
    put16(&mut t, 1);
    put16(&mut t, 1);
    put_i16(&mut t, 0);
    put_i16(&mut t, 16384);
    put_i16(&mut t, 16384);
    put16(&mut t, 3);
    put16(&mut t, 0);
    put16(&mut t, 1);
    put16(&mut t, 0);
    t.extend_from_slice(&[10, 20, 0xE2]);
    t.push(0);
    t.push(0x01);
    put16(&mut t, 3);
    t.extend_from_slice(&[0, 1, 2]);
    t
}

fn font_with(tables: &[(&[u8; 4], Vec<u8>)]) -> Vec<u8> {
    let mut out = Vec::new();
    put32(&mut out, 0x0001_0000);
    put16(&mut out, tables.len() as u16);
    put16(&mut out, 0);
    put16(&mut out, 0);
    put16(&mut out, 0);
    let mut offset = 12 + 16 * tables.len();
    for (tag, data) in tables {
        out.extend_from_slice(&tag[..]);
        put32(&mut out, 0);
        put32(&mut out, offset as u32);
        put32(&mut out, data.len() as u32);
        offset += data.len();
    }
    for (_, data) in tables {
        out.extend_from_slice(data);
    }
    out
}

fn static_tables() -> Vec<(&'static [u8; 4], Vec<u8>)> {
    let (glyf, loca) = glyf_and_loca();
    vec![
        (b"cmap", cmap_table()),
        (b"head", head_table(1000, 0)),
        (b"hhea", hhea_table(2)),
        (b"hmtx", hmtx_table()),
        (b"maxp", maxp_table(3)),
        (b"name", name_table()),
        (b"loca", loca),
        (b"glyf", glyf),
    ]
}

fn variable_tables() -> Vec<(&'static [u8; 4], Vec<u8>)> {
    let mut tables = static_tables();
    tables.push((b"fvar", fvar_table()));
    tables.push((b"avar", avar_table()));
    tables.push((b"gvar", gvar_table()));
    tables.push((b"HVAR", hvar_table()));
    tables
}

fn variable_font() -> Vec<u8> {
    font_with(&variable_tables())
}

fn static_font() -> Vec<u8> {
    font_with(&static_tables())
}
