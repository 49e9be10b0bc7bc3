use sdf_text::Frac;
use sdf_text::GlyphRecord;
use sdf_text::GlyphTable;
use sdf_text::MalformedAtlasError;
use sdf_text::PixelRect;
use sdf_text::PlaneRect;

fn simple_record(codepoint: u32, advance_x: i64, px: (u32, u32, u32, u32)) -> GlyphRecord {
    GlyphRecord {
        codepoint,
        advance_x,
        plane_bounds: PlaneRect { left: 0, top: 8, right: 8, bottom: 0 },
        image_bounds: PixelRect { left: px.0, top: px.1, right: px.2, bottom: px.3 },
    }
}

#[test]
fn build_rejects_zero_width() {
    let records = vec![simple_record(65, 10, (0, 0, 8, 8))];
    assert_eq!(GlyphTable::build(&records, 0, 64).unwrap_err(), MalformedAtlasError);
}

#[test]
fn build_rejects_zero_height() {
    let records = vec![simple_record(65, 10, (0, 0, 8, 8))];
    assert!(GlyphTable::build(&records, 64, 0).is_err());
}

#[test]
fn build_scales_pixel_bounds_into_uvs() {
    let records = vec![simple_record(65, 10, (4, 2, 12, 10))];
    let table = GlyphTable::build(&records, 128, 64).unwrap();
    let glyph = table.get(65).unwrap();
    assert_eq!(glyph.advance_x, 10);
    assert_eq!(glyph.atlas_bounds.left, Frac { num: 4, den: 128 });
    assert_eq!(glyph.atlas_bounds.top, Frac { num: 2, den: 64 });
    assert_eq!(glyph.atlas_bounds.right, Frac { num: 12, den: 128 });
    assert_eq!(glyph.atlas_bounds.bottom, Frac { num: 10, den: 64 });
}

#[test]
fn atlas_scaling_round_trips_exactly() {
    // scaling down by the atlas dimension and multiplying back recovers the
    // pixel bound exactly, with no tolerance needed
    let records = vec![simple_record(65, 10, (7, 3, 31, 29))];
    let table = GlyphTable::build(&records, 96, 48).unwrap();
    let uv = table.get(65).unwrap().atlas_bounds;
    for (frac, dim, px) in [
        (uv.left, 96u64, 7u64),
        (uv.top, 48, 3),
        (uv.right, 96, 31),
        (uv.bottom, 48, 29),
    ] {
        // cross-multiplied exact ratio: num / den == px / dim
        assert_eq!(frac.num as u64 * dim, px * frac.den as u64);
        // and in floating point the round trip lands back on the pixel bound
        let v = frac.num as f64 / frac.den as f64;
        assert_eq!(v * dim as f64, px as f64);
    }
}

#[test]
fn lookup_misses_absent_codepoint() {
    let records = vec![simple_record(65, 10, (0, 0, 8, 8))];
    let table = GlyphTable::build(&records, 64, 64).unwrap();
    assert!(table.get(66).is_none());
}

#[test]
fn duplicate_codepoint_flagged_and_last_wins() {
    let records = vec![
        simple_record(65, 10, (0, 0, 8, 8)),
        simple_record(66, 11, (8, 0, 16, 8)),
        simple_record(65, 12, (16, 0, 24, 8)),
    ];
    let table = GlyphTable::build(&records, 64, 64).unwrap();
    assert_eq!(table.collisions(), &vec![65]);
    // the later record for 65 replaced the earlier one
    assert_eq!(table.get(65).unwrap().advance_x, 12);
    assert_eq!(table.get(65).unwrap().atlas_bounds.left, Frac { num: 16, den: 64 });
    assert_eq!(table.get(66).unwrap().advance_x, 11);
}

#[test]
fn clean_build_flags_no_collisions() {
    let records = vec![
        simple_record(65, 10, (0, 0, 8, 8)),
        simple_record(66, 11, (8, 0, 16, 8)),
    ];
    let table = GlyphTable::build(&records, 64, 64).unwrap();
    assert!(table.collisions().is_empty());
}

#[test]
fn build_accepts_empty_records() {
    let table = GlyphTable::build(&vec![], 64, 64).unwrap();
    assert!(table.get(65).is_none());
    assert!(table.collisions().is_empty());
}
