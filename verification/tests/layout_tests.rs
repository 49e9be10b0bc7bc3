use sdf_text::Frac;
use sdf_text::GlyphRecord;
use sdf_text::GlyphTable;
use sdf_text::MissingGlyphError;
use sdf_text::PixelRect;
use sdf_text::PlaneRect;
use sdf_text::Text;
use sdf_text::layout;

fn record(codepoint: u32, advance_x: i64, plane: (i64, i64, i64, i64), px: (u32, u32, u32, u32)) -> GlyphRecord {
    GlyphRecord {
        codepoint,
        advance_x,
        plane_bounds: PlaneRect { left: plane.0, top: plane.1, right: plane.2, bottom: plane.3 },
        image_bounds: PixelRect { left: px.0, top: px.1, right: px.2, bottom: px.3 },
    }
}

fn ab_table() -> GlyphTable {
    let records = vec![
        record('A' as u32, 10, (0, 8, 8, 0), (0, 0, 8, 8)),
        record('B' as u32, 12, (1, 8, 9, 0), (8, 0, 16, 8)),
    ];
    GlyphTable::build(&records, 80, 80).unwrap()
}

#[test]
fn single_glyph_scenario() {
    let table = ab_table();
    let quads = layout(&vec!['A'], (0, 0, 0), &table).unwrap();
    assert_eq!(quads.len(), 1);
    let q = quads[0];
    assert_eq!((q.top_left.x, q.top_left.y, q.top_left.z), (0, 8, 0));
    assert_eq!((q.bottom_right.x, q.bottom_right.y), (8, 0));
    assert_eq!(q.tex_top_left.u, Frac { num: 0, den: 80 });
    assert_eq!(q.tex_top_left.v, Frac { num: 0, den: 80 });
    assert_eq!(q.tex_bottom_right.u, Frac { num: 8, den: 80 });
    assert_eq!(q.tex_bottom_right.v, Frac { num: 8, den: 80 });
    // the normalized UV corner is exactly 8/80 = 0.1 when read as f32
    let u = q.tex_bottom_right.u;
    assert_eq!(u.num as f32 / u.den as f32, 0.1f32);
}

#[test]
fn two_glyph_cursor_advance() {
    // after A's right edge at 8, B starts at 8 + 12 = 20 and ends at 8 + 12 + 9 = 29
    let table = ab_table();
    let quads = layout(&vec!['A', 'B'], (0, 0, 0), &table).unwrap();
    assert_eq!(quads.len(), 2);
    assert_eq!(quads[0].bottom_right.x, 8);
    assert_eq!(quads[1].top_left.x, 20);
    assert_eq!(quads[1].bottom_right.x, 29);
    assert_eq!(quads[1].top_left.y, 8);
    assert_eq!(quads[1].bottom_right.y, 0);
}

#[test]
fn anchor_offsets_all_edges() {
    let table = ab_table();
    let quads = layout(&vec!['A', 'B'], (100, -50, 7), &table).unwrap();
    assert_eq!(quads[0].top_left.x, 100);
    assert_eq!(quads[0].bottom_right.x, 108);
    assert_eq!(quads[0].top_left.y, -42);
    assert_eq!(quads[0].bottom_right.y, -50);
    assert_eq!(quads[0].top_left.z, 7);
    assert_eq!(quads[1].top_left.x, 120);
    assert_eq!(quads[1].bottom_right.x, 129);
    assert_eq!(quads[1].top_left.z, 7);
}

#[test]
fn empty_text_yields_empty_sequence() {
    let table = ab_table();
    let quads = layout(&vec![], (0, 0, 0), &table).unwrap();
    assert!(quads.is_empty());
}

#[test]
fn length_and_order_preserved() {
    let table = ab_table();
    let text: Vec<char> = "ABABAB".chars().collect();
    let quads = layout(&text, (0, 0, 0), &table).unwrap();
    assert_eq!(quads.len(), 6);
    // order follows the string: A quads carry A's UVs, B quads B's
    for (i, q) in quads.iter().enumerate() {
        let expected_left_px = if i % 2 == 0 { 0 } else { 8 };
        assert_eq!(q.tex_top_left.u, Frac { num: expected_left_px, den: 80 });
    }
}

#[test]
fn layout_is_deterministic() {
    let table = ab_table();
    let text: Vec<char> = "ABBA".chars().collect();
    let first = layout(&text, (3, 4, 5), &table).unwrap();
    let second = layout(&text, (3, 4, 5), &table).unwrap();
    assert_eq!(first, second);
}

#[test]
fn missing_glyph_reports_exact_codepoint() {
    let table = ab_table();
    let err = layout(&vec!['A', 'Z', 'B'], (0, 0, 0), &table).unwrap_err();
    assert_eq!(err, MissingGlyphError { codepoint: 'Z' as u32 });
}

#[test]
fn missing_glyph_reports_first_of_several() {
    let table = ab_table();
    let err = layout(&vec!['Q', 'Z'], (0, 0, 0), &table).unwrap_err();
    assert_eq!(err.codepoint, 'Q' as u32);
}

#[test]
fn missing_glyph_leaves_table_usable() {
    let table = ab_table();
    assert!(layout(&vec!['A', 'Z'], (0, 0, 0), &table).is_err());
    // the failed call mutated nothing: the same table still lays out cleanly
    let quads = layout(&vec!['A', 'B'], (0, 0, 0), &table).unwrap();
    assert_eq!(quads.len(), 2);
}

#[test]
fn text_run_matches_free_layout() {
    let table = ab_table();
    let run = Text::new("AB".chars().collect(), (0, 0, 0));
    let from_run = run.layout(&table).unwrap();
    let direct = layout(&"AB".chars().collect(), (0, 0, 0), &table).unwrap();
    assert_eq!(from_run, direct);
}

#[test]
fn left_edges_never_cross_previous_right_edges() {
    // with all advances non-negative, each quad starts at or right of the
    // previous quad's right edge
    let table = ab_table();
    let text: Vec<char> = "ABBAABAB".chars().collect();
    let quads = layout(&text, (-17, 3, 0), &table).unwrap();
    for pair in quads.windows(2) {
        assert!(pair[1].top_left.x >= pair[0].bottom_right.x);
    }
}

#[test]
fn uv_rectangles_equal_table_entries() {
    let table = ab_table();
    let text: Vec<char> = "BA".chars().collect();
    let quads = layout(&text, (5, 6, 7), &table).unwrap();
    for (c, q) in text.iter().zip(quads.iter()) {
        let glyph = table.get(*c as u32).unwrap();
        assert_eq!(q.tex_top_left.u, glyph.atlas_bounds.left);
        assert_eq!(q.tex_top_left.v, glyph.atlas_bounds.top);
        assert_eq!(q.tex_bottom_right.u, glyph.atlas_bounds.right);
        assert_eq!(q.tex_bottom_right.v, glyph.atlas_bounds.bottom);
    }
}

#[test]
fn negative_advance_moves_cursor_left() {
    let records = vec![
        record('A' as u32, 10, (0, 8, 8, 0), (0, 0, 8, 8)),
        record('C' as u32, -4, (0, 8, 2, 0), (0, 0, 2, 8)),
    ];
    let table = GlyphTable::build(&records, 80, 80).unwrap();
    let quads = layout(&vec!['A', 'C'], (0, 0, 0), &table).unwrap();
    // C starts at 8 - 4 = 4 and ends at 8 - 4 + 2 = 6
    assert_eq!(quads[1].top_left.x, 4);
    assert_eq!(quads[1].bottom_right.x, 6);
}
