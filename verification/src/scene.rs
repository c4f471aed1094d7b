//! From what a view painted to the display list that crosses the boundary.
//!
//! The painted scene is handed over in logical pixels relative to the surface's slot;
//! which of its parts cross, as what and in which order, is decided here.

use vstd::prelude::*;
use crate::display_list::{
    one, square_corners, transparent_black, white, BorderStyle, Bounds, Corners, DisplayList,
    Edges, Glyph, Hsla, Image, ImagePayload, Path, PathVertex, PlacedPrimitive, Primitive, Quad,
    Shadow, Underline, WirePoint,
};
use crate::platform_types::Scalar;
use crate::sequences::{lemma_accepted_are_kept, lemma_mapped_are_kept};

verus! {

/// A fill: the wire carries solid ones only.
#[derive(Clone, Copy, Debug, PartialEq, Eq, Structural)]
pub enum Fill {
    Solid(Hsla),
    Gradient,
}

#[derive(Clone, Copy, Debug, PartialEq, Eq, Structural)]
pub struct PaintedQuad {
    pub order: u32,
    pub bounds: Bounds,
    pub content_mask: Bounds,
    pub background: Fill,
    pub border_color: Hsla,
    pub corner_radii: Corners,
    pub border_widths: Edges,
    pub border_style: BorderStyle,
}

#[derive(Clone, Copy, Debug, PartialEq, Eq, Structural)]
pub struct PaintedShadow {
    pub order: u32,
    /// Nonzero for a shadow cast inward.
    pub inset: u32,
    pub shadow: Shadow,
}

#[derive(Clone, Copy, Debug, PartialEq, Eq, Structural)]
pub struct PaintedUnderline {
    pub order: u32,
    pub underline: Underline,
}

/// The symbolic parameters of a glyph the atlas remembers, with the baseline origin of
/// the sprite that shows it.
#[derive(Clone, Copy, Debug, PartialEq, Eq, Structural)]
pub struct GlyphTile {
    pub font_id: u32,
    pub glyph_id: u32,
    pub origin: WirePoint,
    pub font_size: Scalar,
    pub is_emoji: bool,
}

/// What the atlas knows of the tile a sprite shows. For a mask or a bitmap: the id its
/// pixels ship under, if the atlas has them.
#[derive(Clone, Copy, Debug, PartialEq, Eq, Structural)]
pub enum TileContent {
    Glyph(GlyphTile),
    AlphaMask(Option<u64>),
    Bitmap(Option<u64>),
}

#[derive(Clone, Copy, Debug, PartialEq, Eq, Structural)]
pub struct MonochromeSprite {
    pub order: u32,
    pub bounds: Bounds,
    pub content_mask: Bounds,
    pub color: Hsla,
    /// Whether the sprite is painted through a transformation.
    pub transformed: bool,
    pub tile: Option<TileContent>,
}

#[derive(Clone, Copy, Debug, PartialEq, Eq, Structural)]
pub struct PolychromeSprite {
    pub order: u32,
    pub bounds: Bounds,
    pub content_mask: Bounds,
    pub corner_radii: Corners,
    pub grayscale: bool,
    pub opacity: Scalar,
    pub tile: Option<TileContent>,
}

#[derive(Debug, PartialEq)]
pub struct PaintedPath {
    pub order: u32,
    pub content_mask: Bounds,
    pub fill: Fill,
    pub vertices: Vec<PathVertex>,
}

/// What one view painted.
#[derive(Debug, PartialEq)]
pub struct PaintedScene {
    pub quads: Vec<PaintedQuad>,
    pub shadows: Vec<PaintedShadow>,
    pub underlines: Vec<PaintedUnderline>,
    pub monochrome_sprites: Vec<MonochromeSprite>,
    pub polychrome_sprites: Vec<PolychromeSprite>,
    pub paths: Vec<PaintedPath>,
    /// How many video surfaces it holds.
    pub surfaces: usize,
    /// How many subpixel sprites it holds.
    pub subpixel_sprites: usize,
}

/// What of a scene the wire does not carry as painted.
#[derive(Clone, Copy, Debug, PartialEq, Eq, Structural)]
pub struct SceneWarnings {
    /// A gradient was painted transparent.
    pub gradient: bool,
    /// A video surface was skipped.
    pub surface: bool,
    /// A subpixel sprite was skipped.
    pub subpixel: bool,
    /// An inset shadow was skipped.
    pub inset_shadow: bool,
    /// A sprite of a tile the atlas does not know, or that is of the wrong kind, was
    /// skipped.
    pub unknown_tile: bool,
    /// A transformed sprite was painted untransformed.
    pub transform: bool,
}

impl Fill {
    /// The solid color a fill is painted in.
    pub open spec fn spec_solid(self) -> Hsla {
        match self {
            Fill::Solid(color) => color,
            Fill::Gradient => transparent_black(),
        }
    }

    fn solid(self) -> (color: Hsla)
        ensures
            color == self.spec_solid(),
    {
        match self {
            Fill::Solid(color) => color,
            Fill::Gradient => transparent_black(),
        }
    }
}

/// How a quad crosses.
pub open spec fn quad_primitive(quad: PaintedQuad) -> PlacedPrimitive {
    PlacedPrimitive {
        order: quad.order,
        prim: Primitive::Quad(
            Quad {
                bounds: quad.bounds,
                content_mask: quad.content_mask,
                background: quad.background.spec_solid(),
                border_color: quad.border_color,
                corner_radii: quad.corner_radii,
                border_widths: quad.border_widths,
                border_style: quad.border_style,
            },
        ),
    }
}

/// How a shadow crosses: a drop shadow as itself, an inset one not at all.
pub open spec fn shadow_primitive(shadow: PaintedShadow) -> Option<PlacedPrimitive> {
    if shadow.inset != 0 {
        None
    } else {
        Some(PlacedPrimitive { order: shadow.order, prim: Primitive::Shadow(shadow.shadow) })
    }
}

/// How an underline crosses.
pub open spec fn underline_primitive(underline: PaintedUnderline) -> PlacedPrimitive {
    PlacedPrimitive { order: underline.order, prim: Primitive::Underline(underline.underline) }
}

/// How a glyph crosses.
pub open spec fn glyph_primitive(
    order: u32,
    glyph: GlyphTile,
    color: Hsla,
    content_mask: Bounds,
) -> PlacedPrimitive {
    PlacedPrimitive {
        order,
        prim: Primitive::Glyph(
            Glyph {
                font_id: glyph.font_id,
                glyph_id: glyph.glyph_id,
                origin: glyph.origin,
                font_size: glyph.font_size,
                color,
                content_mask,
                is_emoji: glyph.is_emoji,
            },
        ),
    }
}

/// How a monochrome sprite crosses: a glyph symbolically, in its color; a mask as the
/// image that has the color baked in, square and opaque; anything else not at all.
pub open spec fn monochrome_primitive(sprite: MonochromeSprite) -> Option<PlacedPrimitive> {
    match sprite.tile {
        Some(TileContent::Glyph(glyph)) => Some(
            glyph_primitive(sprite.order, glyph, sprite.color, sprite.content_mask),
        ),
        Some(TileContent::AlphaMask(Some(image_id))) => Some(
            PlacedPrimitive {
                order: sprite.order,
                prim: Primitive::Image(
                    Image {
                        image_id,
                        bounds: sprite.bounds,
                        content_mask: sprite.content_mask,
                        corner_radii: square_corners(),
                        grayscale: false,
                        opacity: one(),
                    },
                ),
            },
        ),
        _ => None,
    }
}

/// How a polychrome sprite crosses: a glyph symbolically, in white; a bitmap as its
/// image; anything else not at all.
pub open spec fn polychrome_primitive(sprite: PolychromeSprite) -> Option<PlacedPrimitive> {
    match sprite.tile {
        Some(TileContent::Glyph(glyph)) => Some(
            glyph_primitive(sprite.order, glyph, white(), sprite.content_mask),
        ),
        Some(TileContent::Bitmap(Some(image_id))) => Some(
            PlacedPrimitive {
                order: sprite.order,
                prim: Primitive::Image(
                    Image {
                        image_id,
                        bounds: sprite.bounds,
                        content_mask: sprite.content_mask,
                        corner_radii: sprite.corner_radii,
                        grayscale: sprite.grayscale,
                        opacity: sprite.opacity,
                    },
                ),
            },
        ),
        _ => None,
    }
}

/// How a path crosses.
pub open spec fn path_primitive(path: PaintedPath) -> PlacedPrimitive {
    PlacedPrimitive {
        order: path.order,
        prim: Primitive::Path(
            Path {
                content_mask: path.content_mask,
                color: path.fill.spec_solid(),
                vertices: path.vertices,
            },
        ),
    }
}

/// The primitives of a scene, in wire order: quads, shadows, underlines, monochrome
/// sprites, polychrome sprites, paths, each kind in painted order.
pub open spec fn scene_primitives(scene: PaintedScene) -> Seq<PlacedPrimitive> {
    scene.quads@.map_values(|quad: PaintedQuad| quad_primitive(quad)) + scene.shadows@.filter_map(
        |shadow: PaintedShadow| shadow_primitive(shadow),
    ) + scene.underlines@.map_values(|underline: PaintedUnderline| underline_primitive(underline))
        + scene.monochrome_sprites@.filter_map(
        |sprite: MonochromeSprite| monochrome_primitive(sprite),
    ) + scene.polychrome_sprites@.filter_map(
        |sprite: PolychromeSprite| polychrome_primitive(sprite),
    ) + scene.paths@.map_values(|path: PaintedPath| path_primitive(path))
}

/// Whether a monochrome sprite shows a tile that cannot be shown so.
pub open spec fn unknown_monochrome(sprite: MonochromeSprite) -> bool {
    !(sprite.tile matches Some(TileContent::Glyph(_))) && !(
    sprite.tile matches Some(TileContent::AlphaMask(_)))
}

/// Whether a polychrome sprite shows a tile that cannot be shown so.
pub open spec fn unknown_polychrome(sprite: PolychromeSprite) -> bool {
    !(sprite.tile matches Some(TileContent::Glyph(_))) && !(
    sprite.tile matches Some(TileContent::Bitmap(_)))
}

/// Whether `warnings` says exactly what the wire does not carry as painted.
pub open spec fn warnings_fit(scene: PaintedScene, warnings: SceneWarnings) -> bool {
    &&& warnings.gradient <==> (exists|i: int|
        0 <= i < scene.quads@.len() && (#[trigger] scene.quads@[i]).background is Gradient) || (
    exists|i: int| 0 <= i < scene.paths@.len() && (#[trigger] scene.paths@[i]).fill is Gradient)
    &&& warnings.inset_shadow <==> (exists|i: int|
        0 <= i < scene.shadows@.len() && (#[trigger] scene.shadows@[i]).inset != 0)
    &&& warnings.transform <==> (exists|i: int|
        0 <= i < scene.monochrome_sprites@.len() && (
        #[trigger] scene.monochrome_sprites@[i]).transformed)
    &&& warnings.unknown_tile <==> (exists|i: int|
        0 <= i < scene.monochrome_sprites@.len() && unknown_monochrome(
            #[trigger] scene.monochrome_sprites@[i],
        )) || (exists|i: int|
        0 <= i < scene.polychrome_sprites@.len() && unknown_polychrome(
            #[trigger] scene.polychrome_sprites@[i],
        ))
    &&& warnings.surface <==> scene.surfaces > 0
    &&& warnings.subpixel <==> scene.subpixel_sprites > 0
}

fn glyph_to_wire(order: u32, glyph: GlyphTile, color: Hsla, content_mask: Bounds) -> (placed:
    PlacedPrimitive)
    ensures
        placed == glyph_primitive(order, glyph, color, content_mask),
{
    PlacedPrimitive {
        order,
        prim: Primitive::Glyph(
            Glyph {
                font_id: glyph.font_id,
                glyph_id: glyph.glyph_id,
                origin: glyph.origin,
                font_size: glyph.font_size,
                color,
                content_mask,
                is_emoji: glyph.is_emoji,
            },
        ),
    }
}

fn monochrome_to_wire(sprite: MonochromeSprite) -> (placed: Option<PlacedPrimitive>)
    ensures
        placed == monochrome_primitive(sprite),
{
    match sprite.tile {
        Some(TileContent::Glyph(glyph)) => Some(
            glyph_to_wire(sprite.order, glyph, sprite.color, sprite.content_mask),
        ),
        Some(TileContent::AlphaMask(Some(image_id))) => Some(
            PlacedPrimitive {
                order: sprite.order,
                prim: Primitive::Image(
                    Image {
                        image_id,
                        bounds: sprite.bounds,
                        content_mask: sprite.content_mask,
                        corner_radii: square_corners(),
                        grayscale: false,
                        opacity: one(),
                    },
                ),
            },
        ),
        _ => None,
    }
}

fn polychrome_to_wire(sprite: PolychromeSprite) -> (placed: Option<PlacedPrimitive>)
    ensures
        placed == polychrome_primitive(sprite),
{
    match sprite.tile {
        Some(TileContent::Glyph(glyph)) => Some(
            glyph_to_wire(sprite.order, glyph, white(), sprite.content_mask),
        ),
        Some(TileContent::Bitmap(Some(image_id))) => Some(
            PlacedPrimitive {
                order: sprite.order,
                prim: Primitive::Image(
                    Image {
                        image_id,
                        bounds: sprite.bounds,
                        content_mask: sprite.content_mask,
                        corner_radii: sprite.corner_radii,
                        grayscale: sprite.grayscale,
                        opacity: sprite.opacity,
                    },
                ),
            },
        ),
        _ => None,
    }
}

/// Append the quads. Tells whether one of them was a gradient.
fn append_quads(out: &mut Vec<PlacedPrimitive>, quads: &Vec<PaintedQuad>) -> (gradient: bool)
    ensures
        final(out)@ == old(out)@ + quads@.map_values(|quad: PaintedQuad| quad_primitive(quad)),
        gradient <==> exists|i: int|
            0 <= i < quads@.len() && (#[trigger] quads@[i]).background is Gradient,
{
    let ghost each = |quad: PaintedQuad| quad_primitive(quad);
    let mut gradient = false;
    let mut i: usize = 0;
    while i < quads.len()
        invariant
            i <= quads.len(),
            each == (|quad: PaintedQuad| quad_primitive(quad)),
            out@ == old(out)@ + quads@.take(i as int).map_values(each),
            gradient <==> exists|j: int|
                0 <= j < i && (#[trigger] quads@[j]).background is Gradient,
        decreases quads.len() - i,
    {
        let quad = quads[i];
        if let Fill::Gradient = quad.background {
            gradient = true;
        }
        out.push(
            PlacedPrimitive {
                order: quad.order,
                prim: Primitive::Quad(
                    Quad {
                        bounds: quad.bounds,
                        content_mask: quad.content_mask,
                        background: quad.background.solid(),
                        border_color: quad.border_color,
                        corner_radii: quad.corner_radii,
                        border_widths: quad.border_widths,
                        border_style: quad.border_style,
                    },
                ),
            },
        );
        assert(out@ =~= old(out)@ + quads@.take(i as int + 1).map_values(each));
        i += 1;
    }
    assert(quads@.take(i as int) =~= quads@);
    gradient
}

/// Append the drop shadows. Tells whether an inset one was skipped.
fn append_shadows(out: &mut Vec<PlacedPrimitive>, shadows: &Vec<PaintedShadow>) -> (inset: bool)
    ensures
        final(out)@ == old(out)@ + shadows@.filter_map(
            |shadow: PaintedShadow| shadow_primitive(shadow),
        ),
        inset <==> exists|i: int| 0 <= i < shadows@.len() && (#[trigger] shadows@[i]).inset != 0,
{
    let ghost each = |shadow: PaintedShadow| shadow_primitive(shadow);
    let mut inset = false;
    let mut i: usize = 0;
    while i < shadows.len()
        invariant
            i <= shadows.len(),
            each == (|shadow: PaintedShadow| shadow_primitive(shadow)),
            out@ == old(out)@ + shadows@.take(i as int).filter_map(each),
            inset <==> exists|j: int| 0 <= j < i && (#[trigger] shadows@[j]).inset != 0,
        decreases shadows.len() - i,
    {
        let shadow = shadows[i];
        assert(shadows@.take(i as int + 1).drop_last() =~= shadows@.take(i as int));
        if shadow.inset != 0 {
            inset = true;
        } else {
            out.push(
                PlacedPrimitive { order: shadow.order, prim: Primitive::Shadow(shadow.shadow) },
            );
        }
        assert(out@ =~= old(out)@ + shadows@.take(i as int + 1).filter_map(each));
        i += 1;
    }
    assert(shadows@.take(i as int) =~= shadows@);
    inset
}

/// Append the underlines.
fn append_underlines(out: &mut Vec<PlacedPrimitive>, underlines: &Vec<PaintedUnderline>)
    ensures
        final(out)@ == old(out)@ + underlines@.map_values(
            |underline: PaintedUnderline| underline_primitive(underline),
        ),
{
    let ghost each = |underline: PaintedUnderline| underline_primitive(underline);
    let mut i: usize = 0;
    while i < underlines.len()
        invariant
            i <= underlines.len(),
            each == (|underline: PaintedUnderline| underline_primitive(underline)),
            out@ == old(out)@ + underlines@.take(i as int).map_values(each),
        decreases underlines.len() - i,
    {
        let underline = underlines[i];
        out.push(
            PlacedPrimitive {
                order: underline.order,
                prim: Primitive::Underline(underline.underline),
            },
        );
        assert(out@ =~= old(out)@ + underlines@.take(i as int + 1).map_values(each));
        i += 1;
    }
    assert(underlines@.take(i as int) =~= underlines@);
}

/// Append the monochrome sprites that cross. Tells whether one was transformed, and
/// whether one showed an unknown tile.
fn append_monochrome(out: &mut Vec<PlacedPrimitive>, sprites: &Vec<MonochromeSprite>) -> (warned: (
    bool,
    bool,
))
    ensures
        final(out)@ == old(out)@ + sprites@.filter_map(
            |sprite: MonochromeSprite| monochrome_primitive(sprite),
        ),
        warned.0 <==> exists|i: int|
            0 <= i < sprites@.len() && (#[trigger] sprites@[i]).transformed,
        warned.1 <==> exists|i: int|
            0 <= i < sprites@.len() && unknown_monochrome(#[trigger] sprites@[i]),
{
    let ghost each = |sprite: MonochromeSprite| monochrome_primitive(sprite);
    let mut transformed = false;
    let mut unknown = false;
    let mut i: usize = 0;
    while i < sprites.len()
        invariant
            i <= sprites.len(),
            each == (|sprite: MonochromeSprite| monochrome_primitive(sprite)),
            out@ == old(out)@ + sprites@.take(i as int).filter_map(each),
            transformed <==> exists|j: int| 0 <= j < i && (#[trigger] sprites@[j]).transformed,
            unknown <==> exists|j: int| 0 <= j < i && unknown_monochrome(#[trigger] sprites@[j]),
        decreases sprites.len() - i,
    {
        let sprite = sprites[i];
        assert(sprites@.take(i as int + 1).drop_last() =~= sprites@.take(i as int));
        if sprite.transformed {
            transformed = true;
        }
        match sprite.tile {
            Some(TileContent::Glyph(_)) => {},
            Some(TileContent::AlphaMask(_)) => {},
            _ => {
                unknown = true;
            },
        }
        if let Some(placed) = monochrome_to_wire(sprite) {
            out.push(placed);
        }
        assert(out@ =~= old(out)@ + sprites@.take(i as int + 1).filter_map(each));
        i += 1;
    }
    assert(sprites@.take(i as int) =~= sprites@);
    (transformed, unknown)
}

/// Append the polychrome sprites that cross. Tells whether one showed an unknown tile.
fn append_polychrome(out: &mut Vec<PlacedPrimitive>, sprites: &Vec<PolychromeSprite>) -> (unknown:
    bool)
    ensures
        final(out)@ == old(out)@ + sprites@.filter_map(
            |sprite: PolychromeSprite| polychrome_primitive(sprite),
        ),
        unknown <==> exists|i: int|
            0 <= i < sprites@.len() && unknown_polychrome(#[trigger] sprites@[i]),
{
    let ghost each = |sprite: PolychromeSprite| polychrome_primitive(sprite);
    let mut unknown = false;
    let mut i: usize = 0;
    while i < sprites.len()
        invariant
            i <= sprites.len(),
            each == (|sprite: PolychromeSprite| polychrome_primitive(sprite)),
            out@ == old(out)@ + sprites@.take(i as int).filter_map(each),
            unknown <==> exists|j: int| 0 <= j < i && unknown_polychrome(#[trigger] sprites@[j]),
        decreases sprites.len() - i,
    {
        let sprite = sprites[i];
        assert(sprites@.take(i as int + 1).drop_last() =~= sprites@.take(i as int));
        match sprite.tile {
            Some(TileContent::Glyph(_)) => {},
            Some(TileContent::Bitmap(_)) => {},
            _ => {
                unknown = true;
            },
        }
        if let Some(placed) = polychrome_to_wire(sprite) {
            out.push(placed);
        }
        assert(out@ =~= old(out)@ + sprites@.take(i as int + 1).filter_map(each));
        i += 1;
    }
    assert(sprites@.take(i as int) =~= sprites@);
    unknown
}

/// Append the paths. Tells whether one of them was a gradient.
fn append_paths(out: &mut Vec<PlacedPrimitive>, paths: Vec<PaintedPath>) -> (gradient: bool)
    ensures
        final(out)@ == old(out)@ + paths@.map_values(|path: PaintedPath| path_primitive(path)),
        gradient <==> exists|i: int|
            0 <= i < paths@.len() && (#[trigger] paths@[i]).fill is Gradient,
{
    let ghost each = |path: PaintedPath| path_primitive(path);
    let mut gradient = false;
    for path in it: paths
        invariant
            each == (|path: PaintedPath| path_primitive(path)),
            it.seq() == paths@,
            out@ == old(out)@ + paths@.take(it.index() as int).map_values(each),
            gradient <==> exists|j: int|
                0 <= j < it.index() && (#[trigger] paths@[j]).fill is Gradient,
    {
        assert(path == paths@[it.index() as int]);
        if let Fill::Gradient = path.fill {
            gradient = true;
        }
        let ghost this = path;
        out.push(
            PlacedPrimitive {
                order: path.order,
                prim: Primitive::Path(
                    Path {
                        content_mask: path.content_mask,
                        color: path.fill.solid(),
                        vertices: path.vertices,
                    },
                ),
            },
        );
        assert(out@ =~= old(out)@ + paths@.take(it.index() as int + 1).map_values(each));
    }
    assert(paths@.take(paths@.len() as int) =~= paths@);
    gradient
}

/// Whether a list holds the text a sprite shows, if it shows any: its glyph, of its order and
/// in its color.
pub open spec fn shows_text(list: Seq<PlacedPrimitive>, sprite: MonochromeSprite) -> bool {
    sprite.tile matches Some(TileContent::Glyph(tile)) ==> exists|i: int|
        {
            &&& 0 <= i < list.len()
            &&& list[i].order == sprite.order
            &&& (#[trigger] list[i]).prim matches Primitive::Glyph(glyph)
            &&& glyph.color == sprite.color
            &&& glyph.font_id == tile.font_id
            &&& glyph.glyph_id == tile.glyph_id
            &&& glyph.origin == tile.origin
        }
}

/// Convert what one view painted into the display list that crosses, together with the
/// images the atlas has not shipped yet, and with what the wire does not carry as
/// painted.
pub fn serialize_scene(scene: PaintedScene, pending_images: Vec<ImagePayload>) -> (shipped: (
    DisplayList,
    SceneWarnings,
))
    ensures
        shipped.0.primitives@ == scene_primitives(scene),
        shipped.0.new_images == pending_images,
        shipped.0.hit_regions@.len() == 0,
        warnings_fit(scene, shipped.1),
        forall|at: int|
            0 <= at < scene.monochrome_sprites@.len() ==> shows_text(
                shipped.0.primitives@,
                #[trigger] scene.monochrome_sprites@[at],
            ),
{
    let mut primitives: Vec<PlacedPrimitive> = Vec::new();
    let quad_gradient = append_quads(&mut primitives, &scene.quads);
    let inset_shadow = append_shadows(&mut primitives, &scene.shadows);
    append_underlines(&mut primitives, &scene.underlines);
    let (transform, unknown_monochrome) = append_monochrome(
        &mut primitives,
        &scene.monochrome_sprites,
    );
    let unknown_polychrome = append_polychrome(&mut primitives, &scene.polychrome_sprites);
    let warnings_so_far = SceneWarnings {
        gradient: quad_gradient,
        surface: scene.surfaces > 0,
        subpixel: scene.subpixel_sprites > 0,
        inset_shadow,
        unknown_tile: unknown_monochrome || unknown_polychrome,
        transform,
    };
    let path_gradient = append_paths(&mut primitives, scene.paths);
    let warnings = SceneWarnings { gradient: quad_gradient || path_gradient, ..warnings_so_far };
    assert(primitives@ =~= scene_primitives(scene));
    proof {
        assert forall|at: int| 0 <= at < scene.monochrome_sprites@.len() implies shows_text(
            primitives@,
            #[trigger] scene.monochrome_sprites@[at],
        ) by {
            if scene.monochrome_sprites@[at].tile matches Some(TileContent::Glyph(_)) {
                let i = text_crosses_in_its_color(scene, primitives@, at);
                assert(primitives@[i].prim is Glyph);
            }
        }
    }
    (DisplayList { primitives, new_images: pending_images, hit_regions: Vec::new() }, warnings)
}

/// The shadows that cross: those not cast inward.
pub open spec fn crossing_shadows(scene: PaintedScene) -> Seq<PaintedShadow> {
    scene.shadows@.filter(|shadow: PaintedShadow| shadow.inset == 0)
}

/// The monochrome sprites that cross: glyphs, and masks the atlas has the pixels of.
pub open spec fn crossing_monochrome(scene: PaintedScene) -> Seq<MonochromeSprite> {
    scene.monochrome_sprites@.filter(
        |sprite: MonochromeSprite|
            {
                ||| sprite.tile matches Some(TileContent::Glyph(_))
                ||| sprite.tile matches Some(TileContent::AlphaMask(Some(_)))
            },
    )
}

/// The polychrome sprites that cross: glyphs, and bitmaps the atlas has the pixels of.
pub open spec fn crossing_polychrome(scene: PaintedScene) -> Seq<PolychromeSprite> {
    scene.polychrome_sprites@.filter(
        |sprite: PolychromeSprite|
            {
                ||| sprite.tile matches Some(TileContent::Glyph(_))
                ||| sprite.tile matches Some(TileContent::Bitmap(Some(_)))
            },
    )
}

proof fn lemma_crossings(scene: PaintedScene)
    ensures
        ({
            let list = scene_primitives(scene);
            let shadows = scene.quads@.len() as int;
            let underlines = shadows + crossing_shadows(scene).len();
            let monochrome = underlines + scene.underlines@.len();
            let polychrome = monochrome + crossing_monochrome(scene).len();
            let paths = polychrome + crossing_polychrome(scene).len();
            &&& list.len() == paths + scene.paths@.len()
            &&& forall|i: int|
                0 <= i < scene.quads@.len() ==> list[i] == quad_primitive(
                    #[trigger] scene.quads@[i],
                )
            &&& forall|i: int|
                0 <= i < crossing_shadows(scene).len() ==> shadow_primitive(
                    #[trigger] crossing_shadows(scene)[i],
                ) == Some(list[shadows + i])
            &&& forall|i: int|
                0 <= i < scene.underlines@.len() ==> list[underlines + i] == underline_primitive(
                    #[trigger] scene.underlines@[i],
                )
            &&& forall|i: int|
                0 <= i < crossing_monochrome(scene).len() ==> monochrome_primitive(
                    #[trigger] crossing_monochrome(scene)[i],
                ) == Some(list[monochrome + i])
            &&& forall|i: int|
                0 <= i < crossing_polychrome(scene).len() ==> polychrome_primitive(
                    #[trigger] crossing_polychrome(scene)[i],
                ) == Some(list[polychrome + i])
            &&& forall|i: int|
                0 <= i < scene.paths@.len() ==> list[paths + i] == path_primitive(
                    #[trigger] scene.paths@[i],
                )
        }),
{
    lemma_mapped_are_kept(
        scene.shadows@,
        |shadow: PaintedShadow| shadow_primitive(shadow),
        |shadow: PaintedShadow| shadow.inset == 0,
    );
    lemma_mapped_are_kept(
        scene.monochrome_sprites@,
        |sprite: MonochromeSprite| monochrome_primitive(sprite),
        |sprite: MonochromeSprite|
            {
                ||| sprite.tile matches Some(TileContent::Glyph(_))
                ||| sprite.tile matches Some(TileContent::AlphaMask(Some(_)))
            },
    );
    lemma_mapped_are_kept(
        scene.polychrome_sprites@,
        |sprite: PolychromeSprite| polychrome_primitive(sprite),
        |sprite: PolychromeSprite|
            {
                ||| sprite.tile matches Some(TileContent::Glyph(_))
                ||| sprite.tile matches Some(TileContent::Bitmap(Some(_)))
            },
    );
}

/// Text crosses in the color it was painted in: for each monochrome sprite of a glyph the list
/// holds that glyph, of that order, in that color, clipped as it was.
pub proof fn text_crosses_in_its_color(
    scene: PaintedScene,
    list: Seq<PlacedPrimitive>,
    at: int,
) -> (place: int)
    requires
        list == scene_primitives(scene),
        0 <= at < scene.monochrome_sprites@.len(),
        scene.monochrome_sprites@[at].tile matches Some(TileContent::Glyph(_)),
    ensures
        0 <= place < list.len(),
        list[place].order == scene.monochrome_sprites@[at].order,
        ({
            let sprite = scene.monochrome_sprites@[at];
            &&& sprite.tile matches Some(TileContent::Glyph(tile))
            &&& list[place].prim matches Primitive::Glyph(glyph)
            &&& glyph.color.h == sprite.color.h
            &&& glyph.color.s == sprite.color.s
            &&& glyph.color.l == sprite.color.l
            &&& glyph.color.a == sprite.color.a
            &&& glyph.content_mask == sprite.content_mask
            &&& glyph.font_id == tile.font_id
            &&& glyph.glyph_id == tile.glyph_id
            &&& glyph.origin.x == tile.origin.x
            &&& glyph.origin.y == tile.origin.y
            &&& glyph.font_size == tile.font_size
            &&& glyph.is_emoji == tile.is_emoji
        }),
{
    lemma_crossings(scene);
    let i = lemma_accepted_are_kept(
        scene.monochrome_sprites@,
        |sprite: MonochromeSprite|
            {
                ||| sprite.tile matches Some(TileContent::Glyph(_))
                ||| sprite.tile matches Some(TileContent::AlphaMask(Some(_)))
            },
        at,
    );
    assert(crossing_monochrome(scene)[i] == scene.monochrome_sprites@[at]);
    scene.quads@.len() + crossing_shadows(scene).len() + scene.underlines@.len() + i
}

/// Two scenes that differ in the color of one text give different lists.
pub proof fn text_colors_are_told_apart(scene: PaintedScene, other: PaintedScene, at: int)
    requires
        0 <= at < scene.monochrome_sprites@.len(),
        scene.monochrome_sprites@[at].tile matches Some(TileContent::Glyph(_)),
        other.monochrome_sprites@ == scene.monochrome_sprites@.update(
            at,
            other.monochrome_sprites@[at],
        ),
        other.monochrome_sprites@[at].tile == scene.monochrome_sprites@[at].tile,
        other.monochrome_sprites@[at].color != scene.monochrome_sprites@[at].color,
        other.quads@ == scene.quads@,
        other.shadows@ == scene.shadows@,
        other.underlines@ == scene.underlines@,
    ensures
        scene_primitives(other) != scene_primitives(scene),
{
    lemma_crossings(scene);
    lemma_crossings(other);
    let kept = |sprite: MonochromeSprite|
        {
            ||| sprite.tile matches Some(TileContent::Glyph(_))
            ||| sprite.tile matches Some(TileContent::AlphaMask(Some(_)))
        };
    let place = lemma_same_place(scene.monochrome_sprites@, other.monochrome_sprites@, kept, at);
    let here = crossing_monochrome(scene)[place];
    let there = crossing_monochrome(other)[place];
    assert(here.color != there.color);
}

/// Replacing one item by another that a test accepts as well keeps it in its place.
proof fn lemma_same_place<A>(
    items: Seq<A>,
    other: Seq<A>,
    kept: spec_fn(A) -> bool,
    at: int,
) -> (place: int)
    requires
        0 <= at < items.len(),
        other.len() == items.len(),
        forall|i: int| 0 <= i < items.len() && i != at ==> #[trigger] items[i] == other[i],
        kept(items[at]),
        kept(other[at]),
    ensures
        0 <= place < items.filter(kept).len(),
        place < other.filter(kept).len(),
        items.filter(kept)[place] == items[at],
        other.filter(kept)[place] == other[at],
    decreases items.len(),
{
    reveal(Seq::filter);
    let rest = items.drop_last();
    let other_rest = other.drop_last();
    if at == items.len() - 1 {
        assert(rest =~= other_rest);
        rest.filter(kept).len() as int
    } else {
        lemma_same_place(rest, other_rest, kept, at)
    }
}

/// A mask crosses as the image that has the color baked in: square, opaque and in color, where
/// the sprite was.
pub proof fn masks_cross_as_images(
    scene: PaintedScene,
    list: Seq<PlacedPrimitive>,
    at: int,
) -> (place: int)
    requires
        list == scene_primitives(scene),
        0 <= at < scene.monochrome_sprites@.len(),
        scene.monochrome_sprites@[at].tile matches Some(TileContent::AlphaMask(Some(_))),
    ensures
        0 <= place < list.len(),
        list[place].order == scene.monochrome_sprites@[at].order,
        ({
            let sprite = scene.monochrome_sprites@[at];
            &&& sprite.tile matches Some(TileContent::AlphaMask(Some(id)))
            &&& list[place].prim matches Primitive::Image(image)
            &&& image.image_id == id
            &&& image.bounds == sprite.bounds
            &&& image.content_mask == sprite.content_mask
            &&& image.corner_radii.top_left.bits == 0
            &&& image.corner_radii.top_right.bits == 0
            &&& image.corner_radii.bottom_right.bits == 0
            &&& image.corner_radii.bottom_left.bits == 0
            &&& !image.grayscale
            &&& image.opacity.bits == 0x3f80_0000
        }),
{
    lemma_crossings(scene);
    let i = lemma_accepted_are_kept(
        scene.monochrome_sprites@,
        |sprite: MonochromeSprite|
            {
                ||| sprite.tile matches Some(TileContent::Glyph(_))
                ||| sprite.tile matches Some(TileContent::AlphaMask(Some(_)))
            },
        at,
    );
    assert(crossing_monochrome(scene)[i] == scene.monochrome_sprites@[at]);
    scene.quads@.len() + crossing_shadows(scene).len() + scene.underlines@.len() + i
}

/// An image crosses as painted, and an emoji as its glyph, in opaque white.
pub proof fn polychrome_sprites_cross_as_painted(
    scene: PaintedScene,
    list: Seq<PlacedPrimitive>,
    at: int,
) -> (place: int)
    requires
        list == scene_primitives(scene),
        0 <= at < scene.polychrome_sprites@.len(),
        ({
            ||| scene.polychrome_sprites@[at].tile matches Some(TileContent::Glyph(_))
            ||| scene.polychrome_sprites@[at].tile matches Some(TileContent::Bitmap(Some(_)))
        }),
    ensures
        0 <= place < list.len(),
        list[place].order == scene.polychrome_sprites@[at].order,
        ({
            let sprite = scene.polychrome_sprites@[at];
            match sprite.tile {
                Some(TileContent::Glyph(tile)) => {
                    &&& list[place].prim matches Primitive::Glyph(glyph)
                    &&& glyph.color.h.bits == 0
                    &&& glyph.color.s.bits == 0
                    &&& glyph.color.l.bits == 0x3f80_0000
                    &&& glyph.color.a.bits == 0x3f80_0000
                    &&& glyph.content_mask == sprite.content_mask
                    &&& glyph.font_id == tile.font_id
                    &&& glyph.glyph_id == tile.glyph_id
                    &&& glyph.origin.x == tile.origin.x
                    &&& glyph.origin.y == tile.origin.y
                    &&& glyph.font_size == tile.font_size
                    &&& glyph.is_emoji == tile.is_emoji
                },
                Some(TileContent::Bitmap(Some(id))) => {
                    &&& list[place].prim matches Primitive::Image(image)
                    &&& image.image_id == id
                    &&& image.bounds == sprite.bounds
                    &&& image.content_mask == sprite.content_mask
                    &&& image.corner_radii == sprite.corner_radii
                    &&& image.grayscale == sprite.grayscale
                    &&& image.opacity == sprite.opacity
                },
                _ => false,
            }
        }),
{
    lemma_crossings(scene);
    let i = lemma_accepted_are_kept(
        scene.polychrome_sprites@,
        |sprite: PolychromeSprite|
            {
                ||| sprite.tile matches Some(TileContent::Glyph(_))
                ||| sprite.tile matches Some(TileContent::Bitmap(Some(_)))
            },
        at,
    );
    assert(crossing_polychrome(scene)[i] == scene.polychrome_sprites@[at]);
    scene.quads@.len() + crossing_shadows(scene).len() + scene.underlines@.len()
        + crossing_monochrome(scene).len() + i
}

/// Boxes cross first, each in its place, as painted; a gradient is fully transparent.
pub proof fn quads_cross_as_painted(scene: PaintedScene, list: Seq<PlacedPrimitive>, at: int)
    requires
        list == scene_primitives(scene),
        0 <= at < scene.quads@.len(),
    ensures
        at < list.len(),
        list[at].order == scene.quads@[at].order,
        ({
            let painted = scene.quads@[at];
            &&& list[at].prim matches Primitive::Quad(quad)
            &&& quad.bounds == painted.bounds
            &&& quad.content_mask == painted.content_mask
            &&& painted.background matches Fill::Solid(color) ==> quad.background == color
            &&& painted.background is Gradient ==> quad.background.a.bits == 0 && quad.background.h.bits == 0
                && quad.background.s.bits == 0 && quad.background.l.bits == 0
            &&& quad.border_color == painted.border_color
            &&& quad.corner_radii == painted.corner_radii
            &&& quad.border_widths == painted.border_widths
            &&& quad.border_style == painted.border_style
        }),
{
    lemma_crossings(scene);
}

/// Behind the boxes cross the drop shadows, and behind these the underlines, each as painted
/// and in the order they were painted; a shadow cast inward does not cross.
pub proof fn shadows_and_underlines_cross_as_painted(
    scene: PaintedScene,
    list: Seq<PlacedPrimitive>,
    at: int,
)
    requires
        list == scene_primitives(scene),
    ensures
        ({
            let shadows = scene.shadows@.filter(|shadow: PaintedShadow| shadow.inset == 0);
            let place = scene.quads@.len() + at;
            0 <= at < shadows.len() ==> place < list.len() && list[place].order
                == shadows[at].order && list[place].prim == Primitive::Shadow(shadows[at].shadow)
        }),
        ({
            let shadows = scene.shadows@.filter(|shadow: PaintedShadow| shadow.inset == 0);
            let place = scene.quads@.len() + shadows.len() + at;
            0 <= at < scene.underlines@.len() ==> place < list.len() && list[place].order
                == scene.underlines@[at].order && list[place].prim == Primitive::Underline(
                scene.underlines@[at].underline,
            )
        }),
{
    lemma_crossings(scene);
}

/// Paths cross last, in the order they were painted, each as painted; a gradient is fully
/// transparent.
pub proof fn paths_cross_last(scene: PaintedScene, list: Seq<PlacedPrimitive>, at: int)
    requires
        list == scene_primitives(scene),
        0 <= at < scene.paths@.len(),
    ensures
        ({
            let place = list.len() - scene.paths@.len() + at;
            let painted = scene.paths@[at];
            &&& 0 <= place < list.len()
            &&& list[place].order == painted.order
            &&& list[place].prim matches Primitive::Path(path)
            &&& path.content_mask == painted.content_mask
            &&& path.vertices@ == painted.vertices@
            &&& painted.fill matches Fill::Solid(color) ==> path.color == color
            &&& painted.fill is Gradient ==> path.color.a.bits == 0 && path.color.h.bits == 0
                && path.color.s.bits == 0 && path.color.l.bits == 0
        }),
{
    lemma_crossings(scene);
}

/// Sprites cross between the underlines and the paths, the monochrome ones before the
/// polychrome ones, each kind in the order it was painted; and nothing crosses but what was
/// painted, once.
pub proof fn sprites_cross_in_order(scene: PaintedScene, list: Seq<PlacedPrimitive>, at: int)
    requires
        list == scene_primitives(scene),
    ensures
        ({
            let first = scene.quads@.len() + crossing_shadows(scene).len()
                + scene.underlines@.len();
            let second = first + crossing_monochrome(scene).len();
            &&& list.len() == second + crossing_polychrome(scene).len() + scene.paths@.len()
            &&& 0 <= at < crossing_monochrome(scene).len() ==> list[first + at].order
                == crossing_monochrome(scene)[at].order
            &&& 0 <= at < crossing_polychrome(scene).len() ==> list[second + at].order
                == crossing_polychrome(scene)[at].order
            &&& first <= at < list.len() - scene.paths@.len() ==> list[at].prim is Glyph
                || list[at].prim is Image
        }),
{
    lemma_crossings(scene);
    let first = scene.quads@.len() + crossing_shadows(scene).len() + scene.underlines@.len();
    let second = first + crossing_monochrome(scene).len();
    if first <= at < second {
        assert(monochrome_primitive(crossing_monochrome(scene)[at - first]) == Some(list[at]));
    } else if second <= at < list.len() - scene.paths@.len() {
        assert(polychrome_primitive(crossing_polychrome(scene)[at - second]) == Some(list[at]));
    }
}

/// A message worth giving once.
#[derive(Debug)]
pub struct Once {
    given: bool,
}

impl Once {
    /// Whether the message was given.
    pub closed spec fn spec_given(self) -> bool {
        self.given
    }

    /// A message not given yet.
    pub fn new() -> (once: Once)
        ensures
            !once.spec_given(),
    {
        Once { given: false }
    }
}

/// Whether to give the message now: the first time, and never again.
pub fn warn_once(once: &mut Once) -> (now: bool)
    ensures
        now == !old(once).spec_given(),
        final(once).spec_given(),
{
    let now = !once.given;
    once.given = true;
    now
}

/// What the wire does not carry as painted is warned of by its own name: a gradient of a quad or
/// of a path, an inset shadow, a transformed sprite, a tile that its kind of sprite cannot show,
/// a surface, a subpixel sprite. Where there is none of these, there is no warning.
pub proof fn warnings_name_what_is_lost(scene: PaintedScene, warnings: SceneWarnings, i: int)
    requires
        warnings_fit(scene, warnings),
    ensures
        0 <= i < scene.quads@.len() && scene.quads@[i].background is Gradient ==> warnings.gradient,
        0 <= i < scene.paths@.len() && scene.paths@[i].fill is Gradient ==> warnings.gradient,
        0 <= i < scene.shadows@.len() && scene.shadows@[i].inset != 0 ==> warnings.inset_shadow,
        0 <= i < scene.monochrome_sprites@.len() && scene.monochrome_sprites@[i].transformed
            ==> warnings.transform,
        0 <= i < scene.monochrome_sprites@.len() && (scene.monochrome_sprites@[i].tile is None
            || scene.monochrome_sprites@[i].tile->0 is Bitmap) ==> warnings.unknown_tile,
        0 <= i < scene.polychrome_sprites@.len() && (scene.polychrome_sprites@[i].tile is None
            || scene.polychrome_sprites@[i].tile->0 is AlphaMask) ==> warnings.unknown_tile,
        warnings.surface <==> scene.surfaces > 0,
        warnings.subpixel <==> scene.subpixel_sprites > 0,
        scene.quads@.len() == 0 && scene.paths@.len() == 0 ==> !warnings.gradient,
        scene.shadows@.len() == 0 ==> !warnings.inset_shadow,
        scene.monochrome_sprites@.len() == 0 ==> !warnings.transform,
        scene.monochrome_sprites@.len() == 0 && scene.polychrome_sprites@.len() == 0
            ==> !warnings.unknown_tile,
        warnings.gradient ==> (exists|q: int|
            0 <= q < scene.quads@.len() && (#[trigger] scene.quads@[q]).background is Gradient) || (
        exists|p: int| 0 <= p < scene.paths@.len() && (#[trigger] scene.paths@[p]).fill is Gradient),
        warnings.inset_shadow ==> exists|s: int|
            0 <= s < scene.shadows@.len() && (#[trigger] scene.shadows@[s]).inset != 0,
        warnings.transform ==> exists|s: int|
            0 <= s < scene.monochrome_sprites@.len() && (
            #[trigger] scene.monochrome_sprites@[s]).transformed,
        warnings.unknown_tile ==> (exists|s: int|
            0 <= s < scene.monochrome_sprites@.len() && ((
            #[trigger] scene.monochrome_sprites@[s]).tile is None
                || scene.monochrome_sprites@[s].tile->0 is Bitmap)) || (exists|s: int|
            0 <= s < scene.polychrome_sprites@.len() && ((
            #[trigger] scene.polychrome_sprites@[s]).tile is None
                || scene.polychrome_sprites@[s].tile->0 is AlphaMask)),
{
}

} // verus!
