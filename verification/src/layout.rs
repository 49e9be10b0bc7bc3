//! The layout engine: turns a text run (a string and an anchor position)
//! into an ordered sequence of world-space quad descriptors, one per
//! character, by walking a cursor left to right across the glyph table's
//! metrics.

use crate::glyph::Frac;
use crate::glyph::Glyph;
use crate::glyph::GlyphTable;
use crate::glyph::MAX_COORD;
use crate::glyph::glyph_bounded;
use crate::glyph::table_bounded;
use vstd::prelude::*;

verus! {

/// Longest text run the layout engine accepts: a machine limit that keeps
/// the cursor within `i64` together with [`MAX_COORD`], far above any
/// single-line run a renderer draws.
pub const MAX_TEXT_LEN: usize = 0x10_0000;

/// A world-space position (fixed-point units).
#[derive(Clone, Copy, Debug, PartialEq, Eq, Structural)]
pub struct Pos3 {
    pub x: i64,
    pub y: i64,
    pub z: i64,
}

/// A world-space position without depth.
#[derive(Clone, Copy, Debug, PartialEq, Eq, Structural)]
pub struct Pos2 {
    pub x: i64,
    pub y: i64,
}

/// A normalized atlas texture coordinate.
#[derive(Clone, Copy, Debug, PartialEq, Eq, Structural)]
pub struct UvPoint {
    pub u: Frac,
    pub v: Frac,
}

/// One glyph instance, ready for GPU submission: two opposite world-space
/// corners (the vertex stage expands them into the full quad) and the atlas
/// UV rectangle copied verbatim from the glyph's metrics.
#[derive(Clone, Copy, Debug, PartialEq, Eq, Structural)]
pub struct Quad {
    pub top_left: Pos3,
    pub bottom_right: Pos2,
    pub tex_top_left: UvPoint,
    pub tex_bottom_right: UvPoint,
}

/// Returned by [`layout`] when the text names a codepoint the glyph table
/// does not hold; `codepoint` is the first such character, in string order.
#[derive(Clone, Copy, Debug, PartialEq, Eq, Structural)]
pub struct MissingGlyphError {
    pub codepoint: u32,
}

/// An anchor whose coordinates stay within [`MAX_COORD`]: the machine limit
/// under which the cursor arithmetic cannot overflow.
pub open spec fn anchor_bounded(anchor: (i64, i64, i64)) -> bool {
    &&& -MAX_COORD <= anchor.0 <= MAX_COORD
    &&& -MAX_COORD <= anchor.1 <= MAX_COORD
    &&& -MAX_COORD <= anchor.2 <= MAX_COORD
}

/// Every character of the text has a glyph in the table.
pub open spec fn all_present(text: Seq<char>, tbl: Map<u32, Glyph>) -> bool {
    forall|i: int| 0 <= i < text.len() ==> #[trigger] tbl.contains_key(text[i] as u32)
}

/// The first codepoint at or after position `k` that the table misses, if
/// any, scanning in string order.
pub open spec fn first_missing_from(text: Seq<char>, tbl: Map<u32, Glyph>, k: int) -> Option<u32>
    decreases text.len() - k,
{
    if k < 0 || k >= text.len() {
        None
    } else if !tbl.contains_key(text[k] as u32) {
        Some(text[k] as u32)
    } else {
        first_missing_from(text, tbl, k + 1)
    }
}

/// The first codepoint of the text that the table misses, if any.
pub open spec fn spec_first_missing(text: Seq<char>, tbl: Map<u32, Glyph>) -> Option<u32> {
    first_missing_from(text, tbl, 0)
}

/// The scan misses nothing at or after `k` exactly when every character
/// from `k` on is present.
pub proof fn lemma_first_missing_none(text: Seq<char>, tbl: Map<u32, Glyph>, k: int)
    requires
        0 <= k <= text.len(),
    ensures
        first_missing_from(text, tbl, k) is None <==> (forall|i: int|
            k <= i < text.len() ==> #[trigger] tbl.contains_key(text[i] as u32)),
    decreases text.len() - k,
{
    if k < text.len() {
        lemma_first_missing_none(text, tbl, k + 1);
    }
}

/// The cursor (`right_edge`) after laying out the first `n` characters:
/// it starts at the anchor, jumps to the first glyph's right edge, and then
/// moves by `advance_x + plane_bounds.right` per glyph.
pub open spec fn cursor_after(text: Seq<char>, tbl: Map<u32, Glyph>, anchor_x: int, n: int) -> int
    decreases n,
{
    if n <= 0 {
        anchor_x
    } else {
        let g = tbl[text[n - 1] as u32];
        if n == 1 {
            anchor_x + g.plane_bounds.right
        } else {
            cursor_after(text, tbl, anchor_x, n - 1) + g.advance_x + g.plane_bounds.right
        }
    }
}

/// With a bounded table and anchor, the cursor after `n` glyphs stays within
/// `MAX_COORD * (1 + 2n)`: each step moves it by at most `2 * MAX_COORD`.
pub proof fn lemma_cursor_bounded(text: Seq<char>, tbl: Map<u32, Glyph>, anchor_x: int, n: int)
    requires
        0 <= n <= text.len(),
        -MAX_COORD <= anchor_x <= MAX_COORD,
        table_bounded(tbl),
        forall|i: int| 0 <= i < n ==> #[trigger] tbl.contains_key(text[i] as u32),
    ensures
        -(MAX_COORD + 2 * MAX_COORD * n) <= cursor_after(text, tbl, anchor_x, n) <= MAX_COORD + 2
            * MAX_COORD * n,
    decreases n,
{
    if n > 0 {
        lemma_cursor_bounded(text, tbl, anchor_x, n - 1);
        assert(tbl.contains_key(text[n - 1] as u32));
        assert(glyph_bounded(tbl[text[n - 1] as u32]));
        assert(2 * MAX_COORD * n == 2 * MAX_COORD * (n - 1) + 2 * MAX_COORD) by (nonlinear_arith);
    }
}

/// The quad the layout engine emits for character `i`: the first glyph
/// hangs off the anchor through its full plane bounds; every later glyph's
/// left edge sits at the running cursor plus its own advance. Vertical
/// edges always come from the anchor and the glyph's plane bounds, depth
/// from the anchor alone, and the UV rectangle verbatim from the glyph.
pub open spec fn spec_quad(
    text: Seq<char>,
    tbl: Map<u32, Glyph>,
    anchor: (i64, i64, i64),
    i: int,
) -> Quad {
    let g = tbl[text[i] as u32];
    let left = if i == 0 {
        anchor.0 + g.plane_bounds.left
    } else {
        cursor_after(text, tbl, anchor.0 as int, i) + g.advance_x
    };
    let right = if i == 0 {
        anchor.0 + g.plane_bounds.right
    } else {
        cursor_after(text, tbl, anchor.0 as int, i) + g.advance_x + g.plane_bounds.right
    };
    Quad {
        top_left: Pos3 {
            x: left as i64,
            y: (anchor.1 + g.plane_bounds.top) as i64,
            z: anchor.2,
        },
        bottom_right: Pos2 { x: right as i64, y: (anchor.1 + g.plane_bounds.bottom) as i64 },
        tex_top_left: UvPoint { u: g.atlas_bounds.left, v: g.atlas_bounds.top },
        tex_bottom_right: UvPoint { u: g.atlas_bounds.right, v: g.atlas_bounds.bottom },
    }
}

/// The whole quad sequence of a text run: one quad per character, in string
/// order.
pub open spec fn spec_layout_quads(
    text: Seq<char>,
    tbl: Map<u32, Glyph>,
    anchor: (i64, i64, i64),
) -> Seq<Quad> {
    Seq::new(text.len(), |i: int| spec_quad(text, tbl, anchor, i))
}

/// Lays the text out from the anchor, left to right: one quad per
/// character, or the first missing codepoint. The call is pure — it reads
/// the table and writes nothing — so its outcome is the same on every call
/// with the same inputs.
pub fn layout(text: &Vec<char>, anchor: (i64, i64, i64), table: &GlyphTable) -> (r: Result<
    Vec<Quad>,
    MissingGlyphError,
>)
    requires
        table.wf(),
        anchor_bounded(anchor),
        text@.len() <= MAX_TEXT_LEN,
    ensures
        r is Ok <==> all_present(text@, table@),
        r matches Ok(quads) ==> quads@ == spec_layout_quads(text@, table@, anchor),
        r matches Ok(quads) ==> quads@.len() == text@.len(),
        r matches Err(e) ==> spec_first_missing(text@, table@) == Some(e.codepoint),
{
    let n = text.len();
    let mut quads: Vec<Quad> = Vec::new();
    let mut cursor: i64 = anchor.0;
    for i in 0..n
        invariant
            n == text@.len(),
            n <= MAX_TEXT_LEN,
            table.wf(),
            anchor_bounded(anchor),
            forall|k: int| 0 <= k < i ==> #[trigger] table@.contains_key(text@[k] as u32),
            cursor as int == cursor_after(text@, table@, anchor.0 as int, i as int),
            spec_first_missing(text@, table@) == first_missing_from(text@, table@, i as int),
            quads@.len() == i,
            forall|k: int| 0 <= k < i ==> quads@[k] == spec_quad(text@, table@, anchor, k),
    {
        let c = text[i];
        let cp = c as u32;
        match table.get(cp) {
            None => {
                proof {
                    assert(!table@.contains_key(text@[i as int] as u32));
                    assert(spec_first_missing(text@, table@) == Some(cp));
                }
                return Err(MissingGlyphError { codepoint: cp });
            },
            Some(g) => {
                proof {
                    lemma_cursor_bounded(text@, table@, anchor.0 as int, i as int);
                    assert(glyph_bounded(table@[cp]));
                    assert((i as int) <= MAX_TEXT_LEN ==> 2 * MAX_COORD * (i as int) <= 2
                        * MAX_COORD * (MAX_TEXT_LEN as int)) by (nonlinear_arith);
                }
                let x1: i64;
                let x2: i64;
                if i == 0 {
                    x1 = anchor.0 + g.plane_bounds.left;
                    x2 = anchor.0 + g.plane_bounds.right;
                } else {
                    x1 = cursor + g.advance_x;
                    x2 = cursor + g.advance_x + g.plane_bounds.right;
                }
                let quad = Quad {
                    top_left: Pos3 { x: x1, y: anchor.1 + g.plane_bounds.top, z: anchor.2 },
                    bottom_right: Pos2 { x: x2, y: anchor.1 + g.plane_bounds.bottom },
                    tex_top_left: UvPoint { u: g.atlas_bounds.left, v: g.atlas_bounds.top },
                    tex_bottom_right: UvPoint {
                        u: g.atlas_bounds.right,
                        v: g.atlas_bounds.bottom,
                    },
                };
                quads.push(quad);
                cursor = x2;
            },
        }
    }
    proof {
        lemma_first_missing_none(text@, table@, n as int);
        assert(quads@ =~= spec_layout_quads(text@, table@, anchor));
    }
    Ok(quads)
}

/// A text run: a string and the world-space anchor it hangs from. Immutable
/// once constructed; each run lays out independently given the shared table.
pub struct Text {
    pub x: i64,
    pub y: i64,
    pub z: i64,
    pub text: Vec<char>,
}

impl Text {
    /// The run's anchor position.
    pub open spec fn anchor(&self) -> (i64, i64, i64) {
        (self.x, self.y, self.z)
    }

    /// A run the layout engine accepts: anchor and length within the
    /// machine limits.
    pub open spec fn wf(&self) -> bool {
        &&& anchor_bounded(self.anchor())
        &&& self.text@.len() <= MAX_TEXT_LEN
    }

    /// Makes a run from its characters and anchor position.
    pub fn new(text: Vec<char>, pos: (i64, i64, i64)) -> (r: Text)
        ensures
            r.x == pos.0,
            r.y == pos.1,
            r.z == pos.2,
            r.text@ == text@,
    {
        Text { x: pos.0, y: pos.1, z: pos.2, text }
    }

    /// Lays this run out against the table (see [`layout`]).
    pub fn layout(&self, table: &GlyphTable) -> (r: Result<Vec<Quad>, MissingGlyphError>)
        requires
            self.wf(),
            table.wf(),
        ensures
            r is Ok <==> all_present(self.text@, table@),
            r matches Ok(quads) ==> quads@ == spec_layout_quads(self.text@, table@, self.anchor()),
            r matches Ok(quads) ==> quads@.len() == self.text@.len(),
            r matches Err(e) ==> spec_first_missing(self.text@, table@) == Some(e.codepoint),
    {
        layout(&self.text, (self.x, self.y, self.z), table)
    }
}

/// Every glyph the text uses advances the cursor forwards (or not at all).
pub open spec fn advances_nonneg(text: Seq<char>, tbl: Map<u32, Glyph>) -> bool {
    forall|i: int| 0 <= i < text.len() ==> (#[trigger] tbl[text[i] as u32]).advance_x >= 0
}

/// Every glyph the text uses has its right plane bound at or right of the
/// pen origin.
pub open spec fn plane_rights_nonneg(text: Seq<char>, tbl: Map<u32, Glyph>) -> bool {
    forall|i: int| 0 <= i < text.len() ==> (#[trigger] tbl[text[i] as u32]).plane_bounds.right >= 0
}

/// Determinism: the quad sequence is a function of text, table and anchor
/// alone — two results of [`layout`] on identical inputs are equal, as
/// [`layout`]'s contract pins each to [`spec_layout_quads`].
pub proof fn lemma_layout_deterministic(
    text: Seq<char>,
    tbl: Map<u32, Glyph>,
    anchor: (i64, i64, i64),
    r1: Seq<Quad>,
    r2: Seq<Quad>,
)
    requires
        r1 == spec_layout_quads(text, tbl, anchor),
        r2 == spec_layout_quads(text, tbl, anchor),
    ensures
        r1 == r2,
{
}

/// UV passthrough: every emitted quad carries its source glyph's atlas
/// rectangle verbatim, unmodified by any layout arithmetic.
pub proof fn lemma_uv_passthrough(text: Seq<char>, tbl: Map<u32, Glyph>, anchor: (i64, i64, i64))
    ensures
        forall|i: int|
            0 <= i < text.len() ==> {
                let g = tbl[text[i] as u32];
                &&& (#[trigger] spec_quad(text, tbl, anchor, i)).tex_top_left == (UvPoint {
                    u: g.atlas_bounds.left,
                    v: g.atlas_bounds.top,
                })
                &&& spec_quad(text, tbl, anchor, i).tex_bottom_right == (UvPoint {
                    u: g.atlas_bounds.right,
                    v: g.atlas_bounds.bottom,
                })
            },
{
}

/// Cursor monotonicity, first half: when every advance is non-negative,
/// each quad's left edge sits at or right of the previous quad's right edge.
pub proof fn lemma_left_edges_monotonic(
    text: Seq<char>,
    tbl: Map<u32, Glyph>,
    anchor: (i64, i64, i64),
)
    requires
        table_bounded(tbl),
        anchor_bounded(anchor),
        text.len() <= MAX_TEXT_LEN,
        all_present(text, tbl),
        advances_nonneg(text, tbl),
    ensures
        forall|i: int|
            1 <= i < text.len() ==> (#[trigger] spec_quad(text, tbl, anchor, i)).top_left.x
                >= spec_quad(text, tbl, anchor, i - 1).bottom_right.x,
{
    assert forall|i: int|
        1 <= i < text.len() implies (#[trigger] spec_quad(text, tbl, anchor, i)).top_left.x
        >= spec_quad(text, tbl, anchor, i - 1).bottom_right.x by {
        lemma_cursor_bounded(text, tbl, anchor.0 as int, i);
        assert(tbl.contains_key(text[i] as u32));
        assert(tbl.contains_key(text[i - 1] as u32));
        assert(glyph_bounded(tbl[text[i] as u32]));
        assert(glyph_bounded(tbl[text[i - 1] as u32]));
        assert(2 * MAX_COORD * i <= 2 * MAX_COORD * (MAX_TEXT_LEN as int)) by (nonlinear_arith)
            requires
                0 <= i <= MAX_TEXT_LEN as int,
        ;
    }
}

/// Each quad's bottom-right x edge is exactly the cursor after its
/// character: the `right_edge` the next glyph advances from. Together with
/// [`lemma_cursor_nondecreasing`] this carries cursor monotonicity over to
/// the emitted quads.
pub proof fn lemma_right_edge_is_cursor(
    text: Seq<char>,
    tbl: Map<u32, Glyph>,
    anchor: (i64, i64, i64),
)
    requires
        table_bounded(tbl),
        anchor_bounded(anchor),
        text.len() <= MAX_TEXT_LEN,
        all_present(text, tbl),
    ensures
        forall|i: int|
            0 <= i < text.len() ==> (#[trigger] spec_quad(text, tbl, anchor, i)).bottom_right.x
                == cursor_after(text, tbl, anchor.0 as int, i + 1),
{
    assert forall|i: int|
        0 <= i < text.len() implies (#[trigger] spec_quad(text, tbl, anchor, i)).bottom_right.x
        == cursor_after(text, tbl, anchor.0 as int, i + 1) by {
        lemma_cursor_bounded(text, tbl, anchor.0 as int, i + 1);
        assert(tbl.contains_key(text[i] as u32));
        assert(glyph_bounded(tbl[text[i] as u32]));
        assert(2 * MAX_COORD * (i + 1) <= 2 * MAX_COORD * (MAX_TEXT_LEN as int))
            by (nonlinear_arith)
            requires
                0 <= i + 1 <= MAX_TEXT_LEN as int,
        ;
    }
}

/// Cursor monotonicity, second half: when advances and right plane bounds
/// are all non-negative, the running right edge never moves left across the
/// run.
pub proof fn lemma_cursor_nondecreasing(text: Seq<char>, tbl: Map<u32, Glyph>, anchor_x: int)
    requires
        all_present(text, tbl),
        advances_nonneg(text, tbl),
        plane_rights_nonneg(text, tbl),
    ensures
        forall|i: int|
            0 <= i < text.len() ==> #[trigger] cursor_after(text, tbl, anchor_x, i + 1)
                >= cursor_after(text, tbl, anchor_x, i),
{
    assert forall|i: int|
        0 <= i < text.len() implies #[trigger] cursor_after(text, tbl, anchor_x, i + 1)
        >= cursor_after(text, tbl, anchor_x, i) by {
        assert(tbl.contains_key(text[i] as u32));
        assert((tbl[text[i] as u32]).advance_x >= 0);
        assert((tbl[text[i] as u32]).plane_bounds.right >= 0);
    }
}

} // verus!

