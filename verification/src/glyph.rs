//! The glyph table: an immutable mapping from codepoint to glyph metrics,
//! built once from the decoded records of a font-atlas asset.

use std::collections::HashMap;
use vstd::prelude::*;

verus! {

broadcast use vstd::std_specs::hash::group_hash_axioms;

/// Magnitude bound on every fixed-point coordinate the crate computes with
/// (advances, plane bounds, anchors). It is far beyond any plausible font
/// metric and still leaves room in `i64` for a cursor that walks a maximal
/// text run.
pub const MAX_COORD: i64 = 0x100_0000_0000;

/// An exact rational in `[0, 1]`: `num / den`, used for normalized atlas
/// texture coordinates. Representing the quotient as a pair keeps the
/// division exact; converting to `f32` is left to the GPU-facing caller.
#[derive(Clone, Copy, Debug, PartialEq, Eq, Structural)]
pub struct Frac {
    pub num: u32,
    pub den: u32,
}

/// A glyph's quad extent relative to the pen origin, in fixed-point font
/// design units. `top`/`bottom` follow the convention of the font asset.
#[derive(Clone, Copy, Debug, PartialEq, Eq, Structural)]
pub struct PlaneRect {
    pub left: i64,
    pub top: i64,
    pub right: i64,
    pub bottom: i64,
}

/// A glyph's pixel-space rectangle inside the atlas image.
#[derive(Clone, Copy, Debug, PartialEq, Eq, Structural)]
pub struct PixelRect {
    pub left: u32,
    pub top: u32,
    pub right: u32,
    pub bottom: u32,
}

/// A glyph's normalized UV rectangle into the atlas texture.
#[derive(Clone, Copy, Debug, PartialEq, Eq, Structural)]
pub struct UvRect {
    pub left: Frac,
    pub top: Frac,
    pub right: Frac,
    pub bottom: Frac,
}

/// One raw glyph record as decoded from the font-atlas asset: metrics in
/// design units plus the glyph's pixel rectangle in the atlas image.
#[derive(Clone, Copy, Debug, PartialEq, Eq, Structural)]
pub struct GlyphRecord {
    pub codepoint: u32,
    pub advance_x: i64,
    pub plane_bounds: PlaneRect,
    pub image_bounds: PixelRect,
}

/// The metrics the layout engine reads for one codepoint: cursor advance,
/// plane bounds, and the normalized atlas UV rectangle.
#[derive(Clone, Copy, Debug, PartialEq, Eq, Structural)]
pub struct Glyph {
    pub advance_x: i64,
    pub plane_bounds: PlaneRect,
    pub atlas_bounds: UvRect,
}

/// Returned by [`GlyphTable::build`] when the declared atlas dimensions are
/// not positive: a fatal configuration error in the font asset.
#[derive(Clone, Copy, Debug, PartialEq, Eq, Structural)]
pub struct MalformedAtlasError;

/// How a record's pixel rectangle is turned into normalized UVs: each edge is
/// scaled by `1 / dimension`, kept as an exact rational.
pub open spec fn spec_scaled_uv(px: PixelRect, atlas_width: u32, atlas_height: u32) -> UvRect {
    UvRect {
        left: Frac { num: px.left, den: atlas_width },
        top: Frac { num: px.top, den: atlas_height },
        right: Frac { num: px.right, den: atlas_width },
        bottom: Frac { num: px.bottom, den: atlas_height },
    }
}

/// The glyph a record contributes to the table.
pub open spec fn spec_scaled_glyph(r: GlyphRecord, atlas_width: u32, atlas_height: u32) -> Glyph {
    Glyph {
        advance_x: r.advance_x,
        plane_bounds: r.plane_bounds,
        atlas_bounds: spec_scaled_uv(r.image_bounds, atlas_width, atlas_height),
    }
}

/// Scales a record's pixel rectangle into the atlas UV rectangle.
pub fn scaled_uv(px: PixelRect, atlas_width: u32, atlas_height: u32) -> (r: UvRect)
    requires
        atlas_width > 0,
        atlas_height > 0,
    ensures
        r == spec_scaled_uv(px, atlas_width, atlas_height),
{
    UvRect {
        left: Frac { num: px.left, den: atlas_width },
        top: Frac { num: px.top, den: atlas_height },
        right: Frac { num: px.right, den: atlas_width },
        bottom: Frac { num: px.bottom, den: atlas_height },
    }
}

/// A glyph whose metrics the layout cursor can walk without leaving the
/// range that `i64` arithmetic covers.
pub open spec fn glyph_bounded(g: Glyph) -> bool {
    &&& -MAX_COORD <= g.advance_x <= MAX_COORD
    &&& -MAX_COORD <= g.plane_bounds.left <= MAX_COORD
    &&& -MAX_COORD <= g.plane_bounds.top <= MAX_COORD
    &&& -MAX_COORD <= g.plane_bounds.right <= MAX_COORD
    &&& -MAX_COORD <= g.plane_bounds.bottom <= MAX_COORD
}

/// A raw record whose design-unit metrics are bounded by [`MAX_COORD`]: a
/// machine limit on the fixed-point inputs, not a restriction of the format.
pub open spec fn record_bounded(r: GlyphRecord) -> bool {
    &&& -MAX_COORD <= r.advance_x <= MAX_COORD
    &&& -MAX_COORD <= r.plane_bounds.left <= MAX_COORD
    &&& -MAX_COORD <= r.plane_bounds.top <= MAX_COORD
    &&& -MAX_COORD <= r.plane_bounds.right <= MAX_COORD
    &&& -MAX_COORD <= r.plane_bounds.bottom <= MAX_COORD
}

/// The mapping that the first `n` records build, inserted in order, so a
/// later record for the same codepoint wins.
pub open spec fn spec_table_upto(
    records: Seq<GlyphRecord>,
    atlas_width: u32,
    atlas_height: u32,
    n: int,
) -> Map<u32, Glyph>
    decreases n,
{
    if n <= 0 {
        Map::empty()
    } else {
        spec_table_upto(records, atlas_width, atlas_height, n - 1).insert(
            records[n - 1].codepoint,
            spec_scaled_glyph(records[n - 1], atlas_width, atlas_height),
        )
    }
}

/// The mapping that a whole record sequence builds.
pub open spec fn spec_table_of(
    records: Seq<GlyphRecord>,
    atlas_width: u32,
    atlas_height: u32,
) -> Map<u32, Glyph> {
    spec_table_upto(records, atlas_width, atlas_height, records.len() as int)
}

/// Whether one of the first `n` records carries this codepoint.
pub open spec fn codepoint_in_prefix(records: Seq<GlyphRecord>, n: int, cp: u32) -> bool {
    exists|j: int| 0 <= j < n && records[j].codepoint == cp
}

/// The codepoints among the first `n` records that repeat an earlier record's
/// codepoint, in record order: the collisions a well-formed atlas never has.
pub open spec fn spec_collisions_upto(records: Seq<GlyphRecord>, n: int) -> Seq<u32>
    decreases n,
{
    if n <= 0 {
        Seq::empty()
    } else {
        let prev = spec_collisions_upto(records, n - 1);
        if codepoint_in_prefix(records, n - 1, records[n - 1].codepoint) {
            prev.push(records[n - 1].codepoint)
        } else {
            prev
        }
    }
}

/// A mapping all of whose glyphs are bounded (see [`glyph_bounded`]).
pub open spec fn table_bounded(tbl: Map<u32, Glyph>) -> bool {
    forall|cp: u32| #[trigger] tbl.contains_key(cp) ==> glyph_bounded(tbl[cp])
}

/// Extending a prefix by one record extends the codepoints it covers by
/// exactly that record's codepoint.
proof fn lemma_codepoint_in_prefix_step(records: Seq<GlyphRecord>, n: int)
    requires
        0 <= n < records.len(),
    ensures
        forall|cp: u32| #[trigger]
            codepoint_in_prefix(records, n + 1, cp) <==> (codepoint_in_prefix(records, n, cp)
                || records[n].codepoint == cp),
{
    assert forall|cp: u32|
        #[trigger] codepoint_in_prefix(records, n + 1, cp) <==> (codepoint_in_prefix(records, n, cp)
            || records[n].codepoint == cp) by {
        if codepoint_in_prefix(records, n + 1, cp) {
            let j = choose|j: int| 0 <= j < n + 1 && records[j].codepoint == cp;
            if j < n {
                assert(codepoint_in_prefix(records, n, cp));
            }
        }
        if codepoint_in_prefix(records, n, cp) {
            let j = choose|j: int| 0 <= j < n && records[j].codepoint == cp;
            assert(0 <= j < n + 1 && records[j].codepoint == cp);
        }
        if records[n].codepoint == cp {
            assert(0 <= n < n + 1 && records[n].codepoint == cp);
        }
    }
}

/// The glyph table: built once from the decoded font-atlas records, read-only
/// afterwards, shared by every layout invocation. Its view is the mapping
/// from codepoint to [`Glyph`].
#[derive(Debug)]
pub struct GlyphTable {
    map: HashMap<u32, Glyph>,
    collisions: Vec<u32>,
}

impl View for GlyphTable {
    type V = Map<u32, Glyph>;

    closed spec fn view(&self) -> Map<u32, Glyph> {
        self.map@
    }
}

impl GlyphTable {
    /// Every glyph the table holds stays within the coordinate range that
    /// layout arithmetic needs.
    pub open spec fn wf(&self) -> bool {
        table_bounded(self@)
    }

    /// The codepoints that were written more than once while building, in
    /// build order: a non-empty sequence flags a malformed atlas without
    /// failing the build (the last record for a codepoint wins).
    pub closed spec fn spec_collisions(&self) -> Seq<u32> {
        self.collisions@
    }

    /// Builds the table from raw records and the atlas pixel dimensions.
    /// Each record's pixel rectangle is scaled by `(1/width, 1/height)` into
    /// an exact normalized UV rectangle. Fails only when a declared dimension
    /// is zero, which no valid atlas has.
    pub fn build(
        records: &Vec<GlyphRecord>,
        atlas_width: u32,
        atlas_height: u32,
    ) -> (r: Result<GlyphTable, MalformedAtlasError>)
        requires
            forall|i: int| 0 <= i < records@.len() ==> record_bounded(#[trigger] records@[i]),
        ensures
            r is Err <==> (atlas_width == 0 || atlas_height == 0),
            r matches Ok(t) ==> {
                &&& t@ == spec_table_of(records@, atlas_width, atlas_height)
                &&& t.wf()
                &&& t.spec_collisions() == spec_collisions_upto(records@, records@.len() as int)
            },
    {
        if atlas_width == 0 || atlas_height == 0 {
            return Err(MalformedAtlasError);
        }
        let mut map: HashMap<u32, Glyph> = HashMap::new();
        let mut collisions: Vec<u32> = Vec::new();
        let n = records.len();
        assert(map@ =~= spec_table_upto(records@, atlas_width, atlas_height, 0));
        for i in 0..n
            invariant
                n == records@.len(),
                atlas_width > 0,
                atlas_height > 0,
                forall|k: int| 0 <= k < records@.len() ==> record_bounded(#[trigger] records@[k]),
                map@ == spec_table_upto(records@, atlas_width, atlas_height, i as int),
                collisions@ == spec_collisions_upto(records@, i as int),
                forall|cp: u32| #[trigger]
                    map@.contains_key(cp) <==> codepoint_in_prefix(records@, i as int, cp),
                forall|cp: u32| #[trigger]
                    map@.contains_key(cp) ==> glyph_bounded(map@[cp]),
        {
            let rec = records[i];
            let glyph = Glyph {
                advance_x: rec.advance_x,
                plane_bounds: rec.plane_bounds,
                atlas_bounds: scaled_uv(rec.image_bounds, atlas_width, atlas_height),
            };
            if map.contains_key(&rec.codepoint) {
                collisions.push(rec.codepoint);
            }
            map.insert(rec.codepoint, glyph);
            proof {
                lemma_codepoint_in_prefix_step(records@, i as int);
            }
        }
        Ok(GlyphTable { map, collisions })
    }

    /// Looks the codepoint up; `None` exactly when the table has no glyph
    /// for it.
    pub fn get(&self, codepoint: u32) -> (r: Option<&Glyph>)
        ensures
            match r {
                Some(g) => self@.contains_key(codepoint) && *g == self@[codepoint],
                None => !self@.contains_key(codepoint),
            },
    {
        self.map.get(&codepoint)
    }

    /// The collision warnings recorded while building (see
    /// [`Self::spec_collisions`]).
    pub fn collisions(&self) -> (r: &Vec<u32>)
        ensures
            r@ == self.spec_collisions(),
    {
        &self.collisions
    }
}

/// Scaling a pixel rectangle by `(1/width, 1/height)` is exact: each UV
/// coordinate equals the ratio `pixel / dimension` (cross-multiplied form),
/// so re-multiplying the UV value by the dimension recovers the original
/// pixel bound with no error at all.
pub proof fn lemma_atlas_scale_round_trip(px: PixelRect, atlas_width: u32, atlas_height: u32)
    requires
        atlas_width > 0,
        atlas_height > 0,
    ensures
        ({
            let uv = spec_scaled_uv(px, atlas_width, atlas_height);
            &&& uv.left.num * atlas_width == px.left * uv.left.den && uv.left.den > 0
            &&& uv.top.num * atlas_height == px.top * uv.top.den && uv.top.den > 0
            &&& uv.right.num * atlas_width == px.right * uv.right.den && uv.right.den > 0
            &&& uv.bottom.num * atlas_height == px.bottom * uv.bottom.den && uv.bottom.den > 0
        }),
{
}

/// When a record's pixel rectangle lies inside the atlas image, its scaled
/// UV rectangle is normalized: every rational lies in `[0, 1]` (numerator at
/// most denominator, denominator positive).
pub proof fn lemma_uv_normalized(px: PixelRect, atlas_width: u32, atlas_height: u32)
    requires
        atlas_width > 0,
        atlas_height > 0,
        px.left <= atlas_width,
        px.right <= atlas_width,
        px.top <= atlas_height,
        px.bottom <= atlas_height,
    ensures
        ({
            let uv = spec_scaled_uv(px, atlas_width, atlas_height);
            &&& uv.left.num <= uv.left.den && uv.left.den > 0
            &&& uv.top.num <= uv.top.den && uv.top.den > 0
            &&& uv.right.num <= uv.right.den && uv.right.den > 0
            &&& uv.bottom.num <= uv.bottom.den && uv.bottom.den > 0
        }),
{
}

} // verus!
