//! Glyph layout and atlas-backed quad generation for a signed-distance-field
//! text renderer.
//!
//! The crate works in exact integer arithmetic. World-space coordinates and
//! font design units are fixed-point integers (`i64`), and atlas texture
//! coordinates are exact rationals (a pixel numerator over an atlas-dimension
//! denominator), so every computation here is bit-for-bit reproducible and the
//! atlas scaling round trip is exact. Converting these values to the `f32`
//! form a GPU consumes is the caller's concern.

pub mod buffer;
pub mod glyph;
pub mod layout;

pub use buffer::QuadInstance;
pub use buffer::build_instance_buffer;
pub use glyph::Frac;
pub use glyph::Glyph;
pub use glyph::GlyphRecord;
pub use glyph::GlyphTable;
pub use glyph::MalformedAtlasError;
pub use glyph::PixelRect;
pub use glyph::PlaneRect;
pub use glyph::UvRect;
pub use layout::MissingGlyphError;
pub use layout::Pos2;
pub use layout::Pos3;
pub use layout::Quad;
pub use layout::Text;
pub use layout::UvPoint;
pub use layout::layout;
