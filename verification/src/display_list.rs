//! Display lists: what a view drew, as symbolic primitives in logical pixels relative to
//! the surface's slot. The one bulk path across the boundary.

use vstd::prelude::*;
use crate::platform_types::Scalar;

verus! {

/// The bits of the scalar 1.
pub const ONE_BITS: u32 = 0x3f80_0000;

/// The scalar 0.
#[verifier::allow_in_spec]
pub fn zero() -> (scalar: Scalar)
    returns
        (Scalar { bits: 0 }),
{
    Scalar { bits: 0 }
}

/// The scalar 1.
#[verifier::allow_in_spec]
pub fn one() -> (scalar: Scalar)
    returns
        (Scalar { bits: ONE_BITS }),
{
    Scalar { bits: ONE_BITS }
}

#[derive(Clone, Copy, Debug, PartialEq, Eq, Structural)]
pub struct WirePoint {
    pub x: Scalar,
    pub y: Scalar,
}

#[derive(Clone, Copy, Debug, PartialEq, Eq, Structural)]
pub struct Extent {
    pub width: Scalar,
    pub height: Scalar,
}

#[derive(Clone, Copy, Debug, PartialEq, Eq, Structural)]
pub struct Bounds {
    pub origin: WirePoint,
    pub size: Extent,
}

#[derive(Clone, Copy, Debug, PartialEq, Eq, Structural)]
pub struct Corners {
    pub top_left: Scalar,
    pub top_right: Scalar,
    pub bottom_right: Scalar,
    pub bottom_left: Scalar,
}

#[derive(Clone, Copy, Debug, PartialEq, Eq, Structural)]
pub struct Edges {
    pub top: Scalar,
    pub right: Scalar,
    pub bottom: Scalar,
    pub left: Scalar,
}

/// A color by hue, saturation, lightness and opacity.
#[derive(Clone, Copy, Debug, PartialEq, Eq, Structural)]
pub struct Hsla {
    pub h: Scalar,
    pub s: Scalar,
    pub l: Scalar,
    pub a: Scalar,
}

/// Fully transparent black.
#[verifier::allow_in_spec]
pub fn transparent_black() -> (color: Hsla)
    returns
        (Hsla { h: zero(), s: zero(), l: zero(), a: zero() }),
{
    Hsla { h: zero(), s: zero(), l: zero(), a: zero() }
}

/// Opaque white.
#[verifier::allow_in_spec]
pub fn white() -> (color: Hsla)
    returns
        (Hsla { h: zero(), s: zero(), l: one(), a: one() }),
{
    Hsla { h: zero(), s: zero(), l: one(), a: one() }
}

/// Corners that are not rounded.
#[verifier::allow_in_spec]
pub fn square_corners() -> (corners: Corners)
    returns
        (Corners { top_left: zero(), top_right: zero(), bottom_right: zero(), bottom_left: zero() }),
{
    Corners { top_left: zero(), top_right: zero(), bottom_right: zero(), bottom_left: zero() }
}

#[derive(Clone, Copy, Debug, PartialEq, Eq, Structural)]
pub enum BorderStyle {
    Solid,
    Dashed,
}

#[derive(Clone, Copy, Debug, PartialEq, Eq, Structural)]
pub struct Quad {
    pub bounds: Bounds,
    pub content_mask: Bounds,
    pub background: Hsla,
    pub border_color: Hsla,
    pub corner_radii: Corners,
    pub border_widths: Edges,
    pub border_style: BorderStyle,
}

/// A drop shadow, the wire's only kind.
#[derive(Clone, Copy, Debug, PartialEq, Eq, Structural)]
pub struct Shadow {
    pub bounds: Bounds,
    pub content_mask: Bounds,
    pub corner_radii: Corners,
    pub color: Hsla,
    pub blur_radius: Scalar,
    pub spread_radius: Scalar,
    pub offset: WirePoint,
}

#[derive(Clone, Copy, Debug, PartialEq, Eq, Structural)]
pub struct Underline {
    pub origin: WirePoint,
    pub width: Scalar,
    pub content_mask: Bounds,
    pub color: Hsla,
    pub thickness: Scalar,
    pub wavy: bool,
}

/// A glyph by font and number, for the host to rasterize itself.
#[derive(Clone, Copy, Debug, PartialEq, Eq, Structural)]
pub struct Glyph {
    pub font_id: u32,
    pub glyph_id: u32,
    pub origin: WirePoint,
    pub font_size: Scalar,
    pub color: Hsla,
    pub content_mask: Bounds,
    pub is_emoji: bool,
}

#[derive(Clone, Copy, Debug, PartialEq, Eq, Structural)]
pub struct PathVertex {
    pub xy: WirePoint,
    pub st: WirePoint,
}

/// A filled path: three vertices to a triangle.
#[derive(Debug, PartialEq)]
pub struct Path {
    pub content_mask: Bounds,
    pub color: Hsla,
    pub vertices: Vec<PathVertex>,
}

#[derive(Clone, Copy, Debug, PartialEq, Eq, Structural)]
pub struct Image {
    pub image_id: u64,
    pub bounds: Bounds,
    pub content_mask: Bounds,
    pub corner_radii: Corners,
    pub grayscale: bool,
    pub opacity: Scalar,
}

#[derive(Debug, PartialEq)]
pub enum Primitive {
    Quad(Quad),
    Shadow(Shadow),
    Underline(Underline),
    Glyph(Glyph),
    Path(Path),
    Image(Image),
}

/// A primitive, and where it stands in the painting order.
#[derive(Debug, PartialEq)]
pub struct PlacedPrimitive {
    pub order: u32,
    pub prim: Primitive,
}

/// The pixels of an image, shipped once under an id.
#[derive(Debug, PartialEq)]
pub struct ImagePayload {
    pub id: u64,
    pub width: u32,
    pub height: u32,
    pub bytes: Vec<u8>,
}

/// Where the pointer can reach an element drawn outside the slot.
#[derive(Clone, Copy, Debug, PartialEq, Eq, Structural)]
pub struct HitRegion {
    pub bounds: Bounds,
    pub block_mouse: bool,
}

/// What a view drew, with the images it has not shipped before.
#[derive(Debug, PartialEq)]
pub struct DisplayList {
    pub primitives: Vec<PlacedPrimitive>,
    pub new_images: Vec<ImagePayload>,
    pub hit_regions: Vec<HitRegion>,
}

/// A display list addressed to a surface by object id.
#[derive(Debug, PartialEq)]
pub struct Scene {
    pub surface: u64,
    pub list: DisplayList,
}

/// The colors and corners that stand in for what is not carried, bit by bit: nought is the
/// scalar without bits and one the scalar of the exponent that counts as nought; white is full
/// light and opaque without a hue, and what is transparent shows nothing.
pub proof fn stand_ins_are_what_they_are_called(scalar: Scalar)
    ensures
        scalar == zero() <==> scalar.bits == 0,
        scalar == one() <==> scalar.bits == 127 * 0x80_0000,
        white().h.bits == 0,
        white().s.bits == 0,
        white().l.bits == 127 * 0x80_0000,
        white().a.bits == 127 * 0x80_0000,
        transparent_black().h.bits == 0,
        transparent_black().s.bits == 0,
        transparent_black().l.bits == 0,
        transparent_black().a.bits == 0,
        square_corners().top_left.bits == 0,
        square_corners().top_right.bits == 0,
        square_corners().bottom_right.bits == 0,
        square_corners().bottom_left.bits == 0,
{
}

} // verus!
