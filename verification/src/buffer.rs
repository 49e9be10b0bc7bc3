//! The quad buffer builder: serializes a quad sequence into the tightly
//! packed, fixed-stride instance buffer an instanced draw call consumes.
//!
//! Each instance is nine 32-bit scalars — position of the top-left corner
//! (x, y, z), the bottom-right corner (x, y), and the two UV corners
//! (u, v each) — packed little-endian at a fixed 36-byte stride. The
//! scalars are carried here as opaque 32-bit patterns: the caller chooses
//! the GPU's number encoding when it lowers a [`crate::layout::Quad`]'s
//! exact fixed-point and rational values into them.

use vstd::prelude::*;

verus! {

/// One instance record: the nine scalars of a quad, already in their 32-bit
/// GPU encoding, in buffer order.
#[derive(Clone, Copy, Debug, PartialEq, Eq, Structural)]
pub struct QuadInstance {
    pub top_left_x: u32,
    pub top_left_y: u32,
    pub top_left_z: u32,
    pub bottom_right_x: u32,
    pub bottom_right_y: u32,
    pub tex_top_left_u: u32,
    pub tex_top_left_v: u32,
    pub tex_bottom_right_u: u32,
    pub tex_bottom_right_v: u32,
}

/// The four little-endian bytes of a 32-bit scalar.
pub open spec fn spec_le_bytes(x: u32) -> Seq<u8> {
    seq![
        (x % 0x100) as u8,
        ((x / 0x100) % 0x100) as u8,
        ((x / 0x1_0000) % 0x100) as u8,
        ((x / 0x100_0000) % 0x100) as u8,
    ]
}

/// The 36 bytes of one packed instance, scalars in buffer order.
pub open spec fn spec_instance_bytes(q: QuadInstance) -> Seq<u8> {
    spec_le_bytes(q.top_left_x) + spec_le_bytes(q.top_left_y) + spec_le_bytes(q.top_left_z)
        + spec_le_bytes(q.bottom_right_x) + spec_le_bytes(q.bottom_right_y) + spec_le_bytes(
        q.tex_top_left_u,
    ) + spec_le_bytes(q.tex_top_left_v) + spec_le_bytes(q.tex_bottom_right_u) + spec_le_bytes(
        q.tex_bottom_right_v,
    )
}

/// The packed bytes of the first `n` instances, in order.
pub open spec fn spec_buffer_upto(quads: Seq<QuadInstance>, n: int) -> Seq<u8>
    decreases n,
{
    if n <= 0 {
        Seq::empty()
    } else {
        spec_buffer_upto(quads, n - 1) + spec_instance_bytes(quads[n - 1])
    }
}

/// The packed bytes of the whole instance sequence.
pub open spec fn spec_buffer_bytes(quads: Seq<QuadInstance>) -> Seq<u8> {
    spec_buffer_upto(quads, quads.len() as int)
}

/// One packed instance is exactly 36 bytes.
#[verifier::rlimit(100)]
pub proof fn lemma_instance_bytes_len(q: QuadInstance)
    ensures
        spec_instance_bytes(q).len() == 36,
{
}

/// The packed prefix of `n` instances is exactly `36 * n` bytes: the buffer
/// is tightly packed, with no padding between instances.
#[verifier::rlimit(100)]
pub proof fn lemma_buffer_len(quads: Seq<QuadInstance>, n: int)
    requires
        0 <= n <= quads.len(),
    ensures
        spec_buffer_upto(quads, n).len() == 36 * n,
    decreases n,
{
    if n > 0 {
        lemma_buffer_len(quads, n - 1);
        lemma_instance_bytes_len(quads[n - 1]);
    }
}

/// Fixed stride: byte `j` of instance `i` lands at offset `36 * i + j` of
/// the packed buffer.
#[verifier::rlimit(100)]
pub proof fn lemma_instance_stride(quads: Seq<QuadInstance>, n: int, i: int, j: int)
    requires
        0 <= i < n <= quads.len(),
        0 <= j < 36,
    ensures
        spec_buffer_upto(quads, n)[36 * i + j] == spec_instance_bytes(quads[i])[j],
    decreases n,
{
    lemma_buffer_len(quads, n - 1);
    lemma_instance_bytes_len(quads[n - 1]);
    if i < n - 1 {
        lemma_instance_stride(quads, n - 1, i, j);
    }
}

/// Pushes the scalar's four little-endian bytes.
fn push_le_bytes(out: &mut Vec<u8>, x: u32)
    ensures
        final(out)@ == old(out)@ + spec_le_bytes(x),
{
    out.push((x % 0x100) as u8);
    out.push(((x / 0x100) % 0x100) as u8);
    out.push(((x / 0x1_0000) % 0x100) as u8);
    out.push(((x / 0x100_0000) % 0x100) as u8);
    proof {
        assert(out@ =~= old(out)@ + spec_le_bytes(x));
    }
}

/// Serializes the instances into the packed buffer and its instance count:
/// write-once per text run, re-built whole when the text changes. The
/// caller draws one unit quad of 4 vertices across `count` instances.
#[verifier::rlimit(100)]
pub fn build_instance_buffer(quads: &Vec<QuadInstance>) -> (r: (Vec<u8>, u32))
    requires
        quads@.len() <= 0xFFFF_FFFF,
    ensures
        r.0@ == spec_buffer_bytes(quads@),
        r.0@.len() == 36 * quads@.len(),
        r.1 == quads@.len(),
{
    let n = quads.len();
    let mut out: Vec<u8> = Vec::new();
    for i in 0..n
        invariant
            n == quads@.len(),
            out@ == spec_buffer_upto(quads@, i as int),
    {
        let q = quads[i];
        push_le_bytes(&mut out, q.top_left_x);
        push_le_bytes(&mut out, q.top_left_y);
        push_le_bytes(&mut out, q.top_left_z);
        push_le_bytes(&mut out, q.bottom_right_x);
        push_le_bytes(&mut out, q.bottom_right_y);
        push_le_bytes(&mut out, q.tex_top_left_u);
        push_le_bytes(&mut out, q.tex_top_left_v);
        push_le_bytes(&mut out, q.tex_bottom_right_u);
        push_le_bytes(&mut out, q.tex_bottom_right_v);
        proof {
            assert(out@ =~= spec_buffer_upto(quads@, i as int + 1));
        }
    }
    proof {
        lemma_buffer_len(quads@, n as int);
    }
    (out, n as u32)
}

} // verus!
