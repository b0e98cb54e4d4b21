use imt::error::{ImtError, ImtErrorKind, ImtErrorSource};
use imt::parse::Font;
use imt::parse::hvar_table::DeltaData;
use imt::parse::outline::{OutlineGeometry, OutlinePoint};

fn error(kind: ImtErrorKind, source: ImtErrorSource) -> ImtError {
    ImtError { kind, source }
}

#[test]
fn it_works() {
    let font = Font::from_bytes(&variable_font()).unwrap();
    assert_eq!(font.maxp_table().num_glyphs, 3);
    assert!(font.fvar_table().is_some());
    assert!(font.gvar_table().is_some());
    assert!(font.avar_table().is_some());
    assert!(font.hvar_table().is_some());
}

#[test]
fn collection_is_refused() {
    let bytes = [b't', b't', b'c', b'f'];
    assert_eq!(
        Font::from_bytes(&bytes).unwrap_err(),
        error(ImtErrorKind::CollectionNotSupported, ImtErrorSource::FontData)
    );
}

#[test]
fn collection_with_a_whole_header_is_refused() {
    let mut bytes = b"ttcf".to_vec();
    bytes.extend_from_slice(&[0, 1, 0, 0, 0, 0, 0, 0]);
    assert_eq!(
        Font::from_bytes(&bytes).unwrap_err(),
        error(ImtErrorKind::CollectionNotSupported, ImtErrorSource::FontData)
    );
}

#[test]
fn cff_is_refused() {
    let bytes = [b'O', b'T', b'T', b'O', 0, 0, 0, 0];
    assert_eq!(
        Font::from_bytes(&bytes).unwrap_err(),
        error(ImtErrorKind::CFFNotSupported, ImtErrorSource::TableDirectory)
    );
}

#[test]
fn short_data_is_truncated() {
    assert_eq!(
        Font::from_bytes(&[]).unwrap_err(),
        error(ImtErrorKind::Truncated, ImtErrorSource::TableDirectory)
    );
    assert_eq!(
        Font::from_bytes(&[0, 1, 0]).unwrap_err(),
        error(ImtErrorKind::Truncated, ImtErrorSource::TableDirectory)
    );
    assert_eq!(
        Font::from_bytes(&[0, 1, 0, 0, 0, 1]).unwrap_err(),
        error(ImtErrorKind::Truncated, ImtErrorSource::TableDirectory)
    );
}

#[test]
fn other_signatures_are_refused() {
    let bytes = [b't', b'r', b'u', b'e', 0, 0, 0, 0, 0, 0, 0, 0];
    assert_eq!(
        Font::from_bytes(&bytes).unwrap_err(),
        error(ImtErrorKind::InvalidSfntVersion, ImtErrorSource::TableDirectory)
    );
}

#[test]
fn each_required_table_is_missed() {
    let sources = [
        (b"cmap", ImtErrorSource::CmapTable),
        (b"head", ImtErrorSource::HeadTable),
        (b"hhea", ImtErrorSource::HheaTable),
        (b"maxp", ImtErrorSource::MaxpTable),
        (b"name", ImtErrorSource::NameTable),
        (b"hmtx", ImtErrorSource::HmtxTable),
        (b"loca", ImtErrorSource::LocaTable),
        (b"glyf", ImtErrorSource::GlyfTable),
    ];
    for (tag, source) in sources {
        let tables: Vec<_> = static_tables().into_iter().filter(|(t, _)| *t != tag).collect();
        assert_eq!(
            Font::from_bytes(&font_with(&tables)).unwrap_err(),
            error(ImtErrorKind::MissingTable, source)
        );
    }
}

#[test]
fn a_table_past_the_end_is_truncated() {
    let mut bytes = static_font();
    let cut = bytes.len() - 1;
    bytes.truncate(cut);
    assert_eq!(
        Font::from_bytes(&bytes).unwrap_err(),
        error(ImtErrorKind::Truncated, ImtErrorSource::GlyfTable)
    );
}

#[test]
fn the_last_of_two_tables_with_one_tag_counts() {
    let mut tables = static_tables();
    tables.insert(0, (b"maxp", vec![0, 0, 0x60, 0, 0, 3]));
    assert!(Font::from_bytes(&font_with(&tables)).is_ok());
    let mut tables = static_tables();
    tables.push((b"maxp", vec![0, 0, 0x60, 0, 0, 3]));
    assert_eq!(
        Font::from_bytes(&font_with(&tables)).unwrap_err(),
        error(ImtErrorKind::UnexpectedVersion, ImtErrorSource::MaxpTable)
    );
}

#[test]
fn a_static_font_has_no_variation_tables() {
    let font = Font::from_bytes(&static_font()).unwrap();
    assert!(font.fvar_table().is_none());
    assert!(font.gvar_table().is_none());
    assert!(font.avar_table().is_none());
    assert!(font.hvar_table().is_none());
}

#[test]
fn head_hhea_and_maxp_are_read() {
    let font = Font::from_bytes(&static_font()).unwrap();
    let head = font.head_table();
    assert_eq!(head.major_version, 1);
    assert_eq!(head.font_revision, [0, 1, 0x80, 0]);
    assert_eq!(head.checksum_adjustment, 0x1234_5678);
    assert_eq!(head.magic_number, 0x5F0F_3CF5);
    assert_eq!(head.flags, 0x000B);
    assert_eq!(head.units_per_em, 1000);
    assert_eq!(head.created, -2);
    assert_eq!(head.modified, 3);
    assert_eq!((head.x_min, head.y_min, head.x_max, head.y_max), (-10, -20, 500, 700));
    assert_eq!(head.lowest_rec_ppem, 8);
    assert_eq!(head.font_direction_hint, 2);
    assert_eq!(head.index_to_loc_format, 0);
    let hhea = font.hhea_table();
    assert_eq!(hhea.ascender, 800);
    assert_eq!(hhea.descender, -200);
    assert_eq!(hhea.line_gap, 90);
    assert_eq!(hhea.advance_width_max, 600);
    assert_eq!(hhea.x_map_extent, 510);
    assert_eq!(hhea.number_of_h_metrics, 2);
    let maxp = font.maxp_table();
    assert_eq!(maxp.version, 0x5000);
    assert_eq!(maxp.num_glyphs, 3);
    assert_eq!(maxp.max_points, 0);
}

#[test]
fn metrics_are_read() {
    let font = Font::from_bytes(&static_font()).unwrap();
    let hmtx = font.hmtx_table();
    assert_eq!(hmtx.hor_metric.len(), 2);
    assert_eq!(hmtx.hor_metric[0].advance_width, 600);
    assert_eq!(hmtx.hor_metric[1].advance_width, 550);
    assert_eq!(hmtx.hor_metric[1].lsb, 10);
    assert_eq!(hmtx.left_side_bearings, vec![5]);
    assert_eq!(hmtx.advance_width(0), Some(600));
    assert_eq!(hmtx.advance_width(1), Some(550));
    assert_eq!(hmtx.advance_width(2), Some(550));
    assert_eq!(hmtx.advance_width(3), None);
}

#[test]
fn characters_and_names_are_read() {
    let font = Font::from_bytes(&static_font()).unwrap();
    let cmap = font.cmap_table();
    assert_eq!(cmap.version, 0);
    assert_eq!(cmap.encoding_records.len(), 1);
    let record = &cmap.encoding_records[0];
    assert_eq!((record.platform_id, record.encoding_id), (3, 1));
    assert_eq!(record.subtable.language, 7);
    let pairs: Vec<(u16, u16)> = record.subtable.glyph_id_map.iter().map(|(c, g)| (*c, *g)).collect();
    assert_eq!(pairs, vec![(65, 1), (66, 2)]);
    let name = font.name_table();
    assert_eq!(name.version, 0);
    assert_eq!(name.name_records.len(), 1);
    assert_eq!(name.name_records[0].language_id, 0x0409);
    assert_eq!(name.name_records[0].name_id, 1);
    assert_eq!(name.name_records[0].name, "Hi");
    assert!(name.lang_tag_records.is_empty());
}

#[test]
fn outlines_are_read() {
    let font = Font::from_bytes(&static_font()).unwrap();
    let glyf = font.glyf_table();
    assert!(glyf.outlines.get(&0).is_none());
    let triangle = glyf.outlines.get(&1).unwrap();
    let points: Vec<(u16, i32, i32, bool)> =
        triangle.points.iter().map(|p| (p.c, p.x, p.y, p.control)).collect();
    assert_eq!(points, vec![(0, 0, 0, false), (0, 500, 0, false), (0, 250, 700, false)]);
    assert_eq!(triangle.contours, vec![0..3]);
    assert_eq!(
        (triangle.x_min, triangle.y_min, triangle.x_max, triangle.y_max),
        (0, 0, 500, 700)
    );
    let corner = |index| OutlinePoint::Given { index };
    assert_eq!(
        triangle.geometry,
        vec![
            OutlineGeometry::Segment { p1: corner(0), p2: corner(1) },
            OutlineGeometry::Segment { p1: corner(1), p2: corner(2) },
            OutlineGeometry::Segment { p1: corner(2), p2: corner(0) },
        ]
    );
    assert_eq!(triangle.num_points(), 3);
    assert!(!triangle.geometry[0].is_curve());
}

#[test]
fn control_points_give_curves() {
    let font = Font::from_bytes(&static_font()).unwrap();
    let curve = font.glyf_table().outlines.get(&2).unwrap();
    let points: Vec<(i32, i32, bool)> = curve.points.iter().map(|p| (p.x, p.y, p.control)).collect();
    assert_eq!(
        points,
        vec![(0, 0, false), (100, 200, true), (300, 200, true), (400, 0, false)]
    );
    assert_eq!((curve.x_min, curve.y_min, curve.x_max, curve.y_max), (0, 0, 400, 200));
    let given = |index| OutlinePoint::Given { index };
    let halfway = OutlinePoint::Halfway { index: 1 };
    assert_eq!(
        curve.geometry,
        vec![
            OutlineGeometry::QuadraticCurve { p1: given(0), p2: given(1), p3: halfway },
            OutlineGeometry::QuadraticCurve { p1: halfway, p2: given(2), p3: given(3) },
            OutlineGeometry::Segment { p1: given(3), p2: given(0) },
        ]
    );
    assert!(curve.geometry[0].is_curve());
}

#[test]
fn rebuilding_twice_changes_nothing() {
    let font = Font::from_bytes(&static_font()).unwrap();
    let mut outline = font.glyf_table().outlines.get(&2).unwrap().clone();
    let before = outline.clone();
    outline.rebuild().unwrap();
    assert_eq!(outline.geometry, before.geometry);
    assert_eq!(outline.points, before.points);
    assert_eq!(
        (outline.x_min, outline.y_min, outline.x_max, outline.y_max),
        (before.x_min, before.y_min, before.x_max, before.y_max)
    );
    outline.rebuild().unwrap();
    assert_eq!(outline.geometry, before.geometry);
}

#[test]
fn rebuilding_follows_moved_points() {
    let font = Font::from_bytes(&static_font()).unwrap();
    let mut outline = font.glyf_table().outlines.get(&1).unwrap().clone();
    outline.points[1].x = 900;
    outline.points[0].y = -50;
    outline.rebuild().unwrap();
    assert_eq!((outline.x_min, outline.y_min, outline.x_max, outline.y_max), (0, -50, 900, 700));
}

#[test]
fn contours_that_cannot_be_drawn_are_refused() {
    let font = Font::from_bytes(&static_font()).unwrap();
    let mut outline = font.glyf_table().outlines.get(&1).unwrap().clone();
    outline.points[0].control = true;
    let before = outline.clone();
    assert_eq!(
        outline.rebuild().unwrap_err(),
        error(ImtErrorKind::Malformed, ImtErrorSource::GlyfTable)
    );
    assert_eq!(outline.geometry, before.geometry);
    let mut outline = before.clone();
    outline.points[0].control = false;
    outline.contours = vec![0..2];
    assert!(outline.rebuild().is_err());
    outline.contours = vec![0..4];
    assert!(outline.rebuild().is_err());
    outline.contours = vec![];
    outline.rebuild().unwrap();
    assert!(outline.geometry.is_empty());
    assert_eq!(
        (outline.x_min, outline.y_min, outline.x_max, outline.y_max),
        (i32::MAX, i32::MAX, i32::MIN, i32::MIN)
    );
}

#[test]
fn axes_and_instances_are_read() {
    let font = Font::from_bytes(&variable_font()).unwrap();
    let fvar = font.fvar_table().unwrap();
    assert_eq!(fvar.axes.len(), 1);
    let axis = &fvar.axes[0];
    assert_eq!(axis.axis_tag, 0x7767_6874);
    assert_eq!(axis.min_value, 100 << 16);
    assert_eq!(axis.default_value, 400 << 16);
    assert_eq!(axis.max_value, 1000 << 16);
    assert_eq!(axis.axis_name_id, 256);
    assert!(!axis.hidden_axis());
    assert_eq!(fvar.instances.len(), 1);
    assert_eq!(fvar.instances[0].sub_family_name_id, 257);
    assert_eq!(fvar.instances[0].coordinates, vec![700 << 16]);
    assert_eq!(fvar.instances[0].post_script_name_id, None);
}

#[test]
fn segment_maps_are_read() {
    let font = Font::from_bytes(&variable_font()).unwrap();
    let avar = font.avar_table().unwrap();
    assert_eq!(avar.segment_maps.len(), 1);
    let maps: Vec<(i16, i16)> = avar.segment_maps[0]
        .axis_value_maps
        .iter()
        .map(|m| (m.from_coord, m.to_coord))
        .collect();
    assert_eq!(
        maps,
        vec![(-16384, -16384), (-8192, -4096), (0, 0), (8192, 12288), (16384, 16384)]
    );
    assert!(avar.segment_maps[0].is_valid());
}

#[test]
fn glyph_variations_are_read() {
    let font = Font::from_bytes(&variable_font()).unwrap();
    let gvar = font.gvar_table().unwrap();
    assert_eq!(gvar.axis_count, 1);
    assert_eq!(gvar.glyph_variations.len(), 1);
    let tuples = &gvar.glyph_variations.get(&1).unwrap().tuples;
    assert_eq!(tuples.len(), 2);
    assert_eq!(tuples[0].peak, vec![16384]);
    assert!(tuples[0].interm.is_none());
    assert!(tuples[0].points.is_empty());
    assert_eq!(
        tuples[0].deltas,
        vec![[10, 0], [20, 0], [30, 40], [0, 0], [0, 0], [0, 0], [0, 0]]
    );
    assert_eq!(tuples[1].peak, vec![8192]);
    let interm = tuples[1].interm.as_ref().unwrap();
    assert_eq!(interm.start, vec![4096]);
    assert_eq!(interm.end, vec![12288]);
    assert_eq!(tuples[1].points, vec![0, 2]);
    assert_eq!(tuples[1].deltas, vec![[5, 7], [-5, 7]]);
}

#[test]
fn advance_variations_are_read() {
    let font = Font::from_bytes(&variable_font()).unwrap();
    let hvar = font.hvar_table().unwrap();
    let store = &hvar.item_variation_store;
    assert_eq!(store.axis_count, 1);
    assert_eq!(store.regions.len(), 1);
    let axis = store.regions[0].axes[0];
    assert_eq!((axis.start, axis.peak, axis.end), (0, 16384, 16384));
    assert!(axis.is_valid());
    assert!(store.regions[0].is_valid());
    assert_eq!(store.item_data.len(), 1);
    assert_eq!(store.item_data[0].region_indexes, vec![0]);
    let deltas: Vec<i32> =
        store.item_data[0].delta_sets.iter().map(|set| set.data[0].value()).collect();
    assert_eq!(deltas, vec![10, 20, -30]);
    assert!(matches!(store.item_data[0].delta_sets[2].data[0], DeltaData::I8(-30)));
    let map = hvar.advance_map.as_ref().unwrap();
    assert_eq!(map.map_data, vec![[0, 0], [0, 1], [0, 2]]);
    assert!(hvar.lsb_map.is_none());
    assert!(hvar.rsb_map.is_none());
    assert_eq!(hvar.advance_delta_set(1), Some((0, 1)));
    assert_eq!(hvar.advance_delta_set(9), Some((0, 2)));
}

#[test]
fn the_order_of_the_tables_does_not_matter() {
    let mut tables = variable_tables();
    tables.reverse();
    let font = Font::from_bytes(&font_with(&tables)).unwrap();
    assert_eq!(font.head_table().units_per_em, 1000);
    assert_eq!(font.glyf_table().outlines.len(), 2);
    assert_eq!(font.gvar_table().unwrap().glyph_variations.len(), 1);
}

#[test]
fn the_first_table_that_fails_is_reported() {
    let mut tables = variable_tables();
    for (tag, data) in tables.iter_mut() {
        if *tag == b"hhea" || *tag == b"name" || *tag == b"fvar" {
            data[1] = 9;
        }
    }
    assert_eq!(
        Font::from_bytes(&font_with(&tables)).unwrap_err(),
        error(ImtErrorKind::UnexpectedVersion, ImtErrorSource::HheaTable)
    );
    let mut tables = variable_tables();
    for (tag, data) in tables.iter_mut() {
        if *tag == b"HVAR" || *tag == b"avar" {
            data[1] = 9;
        }
    }
    assert_eq!(
        Font::from_bytes(&font_with(&tables)).unwrap_err(),
        error(ImtErrorKind::UnexpectedVersion, ImtErrorSource::AvarTable)
    );
    let mut tables = variable_tables();
    for (tag, data) in tables.iter_mut() {
        if *tag == b"HVAR" {
            data[1] = 9;
        }
    }
    assert_eq!(
        Font::from_bytes(&font_with(&tables)).unwrap_err(),
        error(ImtErrorKind::UnexpectedVersion, ImtErrorSource::HvarTable)
    );
}

#[test]
fn an_unknown_format_of_offsets_is_refused_with_the_head_table() {
    let mut tables = static_tables();
    for (tag, data) in tables.iter_mut() {
        if *tag == b"head" {
            *data = head_table(1000, 2);
        }
        if *tag == b"hhea" || *tag == b"maxp" {
            data[1] = 9;
        }
    }
    assert_eq!(
        Font::from_bytes(&font_with(&tables)).unwrap_err(),
        error(ImtErrorKind::FormatNotSupported, ImtErrorSource::HeadTable)
    );
    let mut tables = static_tables();
    for (tag, data) in tables.iter_mut() {
        if *tag == b"head" {
            *data = head_table(1000, 1);
        }
    }
    assert_eq!(
        Font::from_bytes(&font_with(&tables)).unwrap_err(),
        error(ImtErrorKind::Truncated, ImtErrorSource::LocaTable)
    );
}
fn put16(out: &mut Vec<u8>, v: u16) {
    out.extend_from_slice(&v.to_be_bytes());
}

fn put_i16(out: &mut Vec<u8>, v: i16) {
    out.extend_from_slice(&v.to_be_bytes());
}

fn put32(out: &mut Vec<u8>, v: u32) {
    out.extend_from_slice(&v.to_be_bytes());
}

fn head_table(units_per_em: u16, loca_format: i16) -> Vec<u8> {
    let mut t = Vec::new();
    put16(&mut t, 1);
    put16(&mut t, 0);
    put32(&mut t, 0x0001_8000);
    put32(&mut t, 0x1234_5678);
    put32(&mut t, 0x5F0F_3CF5);
    put16(&mut t, 0x000B);
    put16(&mut t, units_per_em);
    t.extend_from_slice(&(-2i64).to_be_bytes());
    t.extend_from_slice(&(3i64).to_be_bytes());
    put_i16(&mut t, -10);
    put_i16(&mut t, -20);
    put_i16(&mut t, 500);
    put_i16(&mut t, 700);
    put16(&mut t, 0);
    put16(&mut t, 8);
    put_i16(&mut t, 2);
    put_i16(&mut t, loca_format);
    put_i16(&mut t, 0);
    t
}

fn hhea_table(number_of_h_metrics: u16) -> Vec<u8> {
    let mut t = Vec::new();
    put16(&mut t, 1);
    put16(&mut t, 0);
    put_i16(&mut t, 800);
    put_i16(&mut t, -200);
    put_i16(&mut t, 90);
    put16(&mut t, 600);
    put_i16(&mut t, -5);
    put_i16(&mut t, -6);
    put_i16(&mut t, 510);
    put_i16(&mut t, 1);
    put_i16(&mut t, 0);
    put_i16(&mut t, 0);
    for _ in 0..4 {
        put_i16(&mut t, 0);
    }
    put_i16(&mut t, 0);
    put16(&mut t, number_of_h_metrics);
    t
}

fn maxp_table(num_glyphs: u16) -> Vec<u8> {
    let mut t = Vec::new();
    put32(&mut t, 0x0000_5000);
    put16(&mut t, num_glyphs);
    t
}

fn hmtx_table() -> Vec<u8> {
    let mut t = Vec::new();
    put16(&mut t, 600);
    put_i16(&mut t, 0);
    put16(&mut t, 550);
    put_i16(&mut t, 10);
    put_i16(&mut t, 5);
    t
}

fn triangle_glyph() -> Vec<u8> {
    let mut g = Vec::new();
    put_i16(&mut g, 1);
    put_i16(&mut g, 0);
    put_i16(&mut g, 0);
    put_i16(&mut g, 500);
    put_i16(&mut g, 700);
    put16(&mut g, 2);
    put16(&mut g, 0);
    g.extend_from_slice(&[0x01, 0x01, 0x01]);
    put_i16(&mut g, 0);
    put_i16(&mut g, 500);
    put_i16(&mut g, -250);
    put_i16(&mut g, 0);
    put_i16(&mut g, 0);
    put_i16(&mut g, 700);
    g.push(0);
    g
}

fn curve_glyph() -> Vec<u8> {
    let mut g = Vec::new();
    put_i16(&mut g, 1);
    put_i16(&mut g, 0);
    put_i16(&mut g, 0);
    put_i16(&mut g, 400);
    put_i16(&mut g, 200);
    put16(&mut g, 3);
    put16(&mut g, 0);
    g.extend_from_slice(&[0x01, 0x00, 0x00, 0x01]);
    put_i16(&mut g, 0);
    put_i16(&mut g, 100);
    put_i16(&mut g, 200);
    put_i16(&mut g, 100);
    put_i16(&mut g, 0);
    put_i16(&mut g, 200);
    put_i16(&mut g, 0);
    put_i16(&mut g, -200);
    g
}

fn glyf_and_loca() -> (Vec<u8>, Vec<u8>) {
    let first = triangle_glyph();
    let second = curve_glyph();
    let mut loca = Vec::new();
    put16(&mut loca, 0);
    put16(&mut loca, 0);
    put16(&mut loca, (first.len() / 2) as u16);
    put16(&mut loca, ((first.len() + second.len()) / 2) as u16);
    let mut glyf = first;
    glyf.extend_from_slice(&second);
    (glyf, loca)
}

fn cmap_table() -> Vec<u8> {
    let mut t = Vec::new();
    put16(&mut t, 0);
    put16(&mut t, 1);
    put16(&mut t, 3);
    put16(&mut t, 1);
    put32(&mut t, 12);
    put16(&mut t, 4);
    put16(&mut t, 32);
    put16(&mut t, 7);
    put16(&mut t, 4);
    put16(&mut t, 4);
    put16(&mut t, 1);
    put16(&mut t, 0);
    put16(&mut t, 66);
    put16(&mut t, 0xFFFF);
    put16(&mut t, 0);
    put16(&mut t, 65);
    put16(&mut t, 0xFFFF);
    put_i16(&mut t, -64);
    put_i16(&mut t, 1);
    put16(&mut t, 0);
    put16(&mut t, 0);
    t
}

fn name_table() -> Vec<u8> {
    let mut t = Vec::new();
    put16(&mut t, 0);
    put16(&mut t, 1);
    put16(&mut t, 18);
    put16(&mut t, 3);
    put16(&mut t, 1);
    put16(&mut t, 0x0409);
    put16(&mut t, 1);
    put16(&mut t, 4);
    put16(&mut t, 0);
    t.extend_from_slice(&[0x00, 0x48, 0x00, 0x69]);
    t
}

fn fvar_table() -> Vec<u8> {
    let mut t = Vec::new();
    put16(&mut t, 1);
    put16(&mut t, 0);
    put16(&mut t, 16);
    put16(&mut t, 2);
    put16(&mut t, 1);
    put16(&mut t, 20);
    put16(&mut t, 1);
    put16(&mut t, 8);
    t.extend_from_slice(b"wght");
    put32(&mut t, 100 << 16);
    put32(&mut t, 400 << 16);
    put32(&mut t, 1000 << 16);
    put16(&mut t, 0);
    put16(&mut t, 256);
    put16(&mut t, 257);
    put16(&mut t, 0);
    put32(&mut t, 700 << 16);
    t
}

fn avar_table() -> Vec<u8> {
    let mut t = Vec::new();
    put16(&mut t, 1);
    put16(&mut t, 0);
    put16(&mut t, 0);
    put16(&mut t, 1);
    put16(&mut t, 5);
    for (from, to) in [(-16384i16, -16384i16), (-8192, -4096), (0, 0), (8192, 12288), (16384, 16384)]
    {
        put_i16(&mut t, from);
        put_i16(&mut t, to);
    }
    t
}

fn gvar_glyph_data() -> Vec<u8> {
    let mut d = Vec::new();
    put16(&mut d, 2);
    put16(&mut d, 18);
    put16(&mut d, 9);
    put16(&mut d, 0);
    put16(&mut d, 10);
    put16(&mut d, 0x8000 | 0x4000 | 0x2000);
    put_i16(&mut d, 8192);
    put_i16(&mut d, 4096);
    put_i16(&mut d, 12288);
    d.extend_from_slice(&[0x02, 10, 20, 30, 0x83, 0x81, 0x00, 40, 0x83]);
    d.extend_from_slice(&[0x02, 0x01, 0, 2, 0x01, 5, 0xFB, 0x01, 7, 7]);
    d.push(0);
    d
}

fn gvar_table() -> Vec<u8> {
    let data = gvar_glyph_data();
    let mut t = Vec::new();
    put16(&mut t, 1);
    put16(&mut t, 0);
    put16(&mut t, 1);
    put16(&mut t, 1);
    put32(&mut t, 28);
    put16(&mut t, 3);
    put16(&mut t, 0);
    put32(&mut t, 30);
    put16(&mut t, 0);
    put16(&mut t, 0);
    put16(&mut t, (data.len() / 2) as u16);
    put16(&mut t, (data.len() / 2) as u16);
    put_i16(&mut t, 16384);
    t.extend_from_slice(&data);
    t
}

fn hvar_table() -> Vec<u8> {
    let mut t = Vec::new();
    put16(&mut t, 1);
    put16(&mut t, 0);
    put32(&mut t, 20);
    put32(&mut t, 53);
    put32(&mut t, 0);
    put32(&mut t, 0);
    put16(&mut t, 1);
    put32(&mut t, 12);
    put16(&mut t, 1);
    put32(&mut t, 22);
    put16(&mut t, 1);
    put16(&mut t, 1);
    put_i16(&mut t, 0);
    put_i16(&mut t, 16384);
    put_i16(&mut t, 16384);
    put16(&mut t, 3);
    put16(&mut t, 0);
    put16(&mut t, 1);
    put16(&mut t, 0);
    t.extend_from_slice(&[10, 20, 0xE2]);
    t.push(0);
    t.push(0x01);
    put16(&mut t, 3);
    t.extend_from_slice(&[0, 1, 2]);
    t
}

fn font_with(tables: &[(&[u8; 4], Vec<u8>)]) -> Vec<u8> {
    let mut out = Vec::new();
    put32(&mut out, 0x0001_0000);
    put16(&mut out, tables.len() as u16);
    put16(&mut out, 0);
    put16(&mut out, 0);
    put16(&mut out, 0);
    let mut offset = 12 + 16 * tables.len();
    for (tag, data) in tables {
        out.extend_from_slice(&tag[..]);
        put32(&mut out, 0);
        put32(&mut out, offset as u32);
        put32(&mut out, data.len() as u32);
        offset += data.len();
    }
    for (_, data) in tables {
        out.extend_from_slice(data);
    }
    out
}

fn static_tables() -> Vec<(&'static [u8; 4], Vec<u8>)> {
    let (glyf, loca) = glyf_and_loca();
    vec![
        (b"cmap", cmap_table()),
        (b"head", head_table(1000, 0)),
        (b"hhea", hhea_table(2)),
        (b"hmtx", hmtx_table()),
        (b"maxp", maxp_table(3)),
        (b"name", name_table()),
        (b"loca", loca),
        (b"glyf", glyf),
    ]
}

fn variable_tables() -> Vec<(&'static [u8; 4], Vec<u8>)> {
    let mut tables = static_tables();
    tables.push((b"fvar", fvar_table()));
    tables.push((b"avar", avar_table()));
    tables.push((b"gvar", gvar_table()));
    tables.push((b"HVAR", hvar_table()));
    tables
}

fn variable_font() -> Vec<u8> {
    font_with(&variable_tables())
}

fn static_font() -> Vec<u8> {
    font_with(&static_tables())
}
