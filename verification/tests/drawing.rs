//! What a view drew, on its way to the host's window.

use embedded_gpui::display_list::{
    one, square_corners, transparent_black, white, zero, BorderStyle, Bounds, DisplayList, Edges,
    Extent, Glyph, Hsla, Image, ImagePayload, Path, PathVertex, PlacedPrimitive, Primitive, Quad,
    Shadow, WirePoint,
};
use embedded_gpui::images::{ingest_images, RenderImage};
use embedded_gpui::platform_types::Scalar;
use embedded_gpui::replay::{layers, paint_primitive, painting_order, replay, Paint};
use embedded_gpui::scene::{
    serialize_scene, warn_once, Fill, GlyphTile, MonochromeSprite, Once, PaintedPath, PaintedQuad,
    PaintedScene, PaintedShadow, PolychromeSprite, TileContent,
};
use embedded_gpui::table::Table;

fn scalar(value: f32) -> Scalar {
    Scalar { bits: value.to_bits() }
}

fn at(x: f32, y: f32) -> WirePoint {
    WirePoint { x: scalar(x), y: scalar(y) }
}

fn bounds() -> Bounds {
    Bounds { origin: at(1.0, 2.0), size: Extent { width: scalar(3.0), height: scalar(4.0) } }
}

fn red() -> Hsla {
    Hsla { h: zero(), s: one(), l: scalar(0.5), a: one() }
}

fn quad(background: Hsla) -> Quad {
    Quad {
        bounds: bounds(),
        content_mask: bounds(),
        background,
        border_color: transparent_black(),
        corner_radii: square_corners(),
        border_widths: Edges { top: zero(), right: zero(), bottom: zero(), left: zero() },
        border_style: BorderStyle::Solid,
    }
}

fn painted_quad(order: u32, background: Fill) -> PaintedQuad {
    let quad = quad(red());
    PaintedQuad {
        order,
        bounds: quad.bounds,
        content_mask: quad.content_mask,
        background,
        border_color: quad.border_color,
        corner_radii: quad.corner_radii,
        border_widths: quad.border_widths,
        border_style: quad.border_style,
    }
}

fn empty_scene() -> PaintedScene {
    PaintedScene {
        quads: Vec::new(),
        shadows: Vec::new(),
        underlines: Vec::new(),
        monochrome_sprites: Vec::new(),
        polychrome_sprites: Vec::new(),
        paths: Vec::new(),
        surfaces: 0,
        subpixel_sprites: 0,
    }
}

fn shadow() -> Shadow {
    Shadow {
        bounds: bounds(),
        content_mask: bounds(),
        corner_radii: square_corners(),
        color: red(),
        blur_radius: one(),
        spread_radius: zero(),
        offset: at(0.0, 0.0),
    }
}

fn sprite(tile: Option<TileContent>) -> MonochromeSprite {
    MonochromeSprite {
        order: 4,
        bounds: bounds(),
        content_mask: bounds(),
        color: red(),
        transformed: false,
        tile,
    }
}

fn glyph_tile() -> GlyphTile {
    GlyphTile {
        font_id: 1,
        glyph_id: 2,
        origin: at(5.0, 6.0),
        font_size: scalar(14.0),
        is_emoji: false,
    }
}

fn payload(id: u64, side: u32, count: usize) -> ImagePayload {
    ImagePayload { id, width: side, height: side, bytes: vec![7; count] }
}

#[test]
fn plain_scenes_are_serialized_whole() {
    let mut scene = empty_scene();
    scene.quads.push(painted_quad(2, Fill::Solid(red())));
    scene.shadows.push(PaintedShadow { order: 1, inset: 0, shadow: shadow() });
    scene.monochrome_sprites.push(sprite(Some(TileContent::Glyph(glyph_tile()))));
    let (list, warnings) = serialize_scene(scene, vec![payload(3, 1, 4)]);
    assert_eq!(list.primitives.len(), 3);
    assert_eq!(list.new_images.len(), 1);
    assert!(!warnings.gradient && !warnings.inset_shadow && !warnings.unknown_tile);
    let quads: Vec<&PlacedPrimitive> = list
        .primitives
        .iter()
        .filter(|placed| matches!(placed.prim, Primitive::Quad(_)))
        .collect();
    assert_eq!(quads[0].order, 2);
    assert_eq!(quads[0].prim, Primitive::Quad(quad(red())));
    assert!(list.primitives.iter().any(|placed| matches!(&placed.prim,
        Primitive::Glyph(Glyph { glyph_id: 2, is_emoji: false, .. }) if placed.order == 4)));
}

#[test]
fn what_cannot_be_shipped_is_warned_of() {
    let mut scene = empty_scene();
    scene.quads.push(painted_quad(1, Fill::Gradient));
    scene.shadows.push(PaintedShadow { order: 1, inset: 1, shadow: shadow() });
    scene.monochrome_sprites.push(sprite(None));
    scene.monochrome_sprites.push(MonochromeSprite {
        transformed: true,
        ..sprite(Some(TileContent::AlphaMask(Some(8))))
    });
    scene.polychrome_sprites.push(PolychromeSprite {
        order: 1,
        bounds: bounds(),
        content_mask: bounds(),
        corner_radii: square_corners(),
        grayscale: true,
        opacity: one(),
        tile: Some(TileContent::Bitmap(Some(9))),
    });
    scene.surfaces = 1;
    scene.subpixel_sprites = 1;
    let (list, warnings) = serialize_scene(scene, Vec::new());
    assert!(warnings.gradient && warnings.surface && warnings.subpixel);
    assert!(warnings.inset_shadow && warnings.unknown_tile && warnings.transform);
    let images: Vec<u64> = list
        .primitives
        .iter()
        .filter_map(|placed| match &placed.prim {
            Primitive::Image(image) => Some(image.image_id),
            _ => None,
        })
        .collect();
    assert_eq!(images, vec![8, 9]);
    assert!(!list.primitives.iter().any(|placed| matches!(placed.prim, Primitive::Shadow(_))));
    let mut once = Once::new();
    assert!(warn_once(&mut once));
    assert!(!warn_once(&mut once));
}

#[test]
fn images_arrive_once_and_whole() {
    let mut images: Table<RenderImage> = Table::new();
    let list = DisplayList {
        primitives: Vec::new(),
        new_images: vec![payload(1, 2, 16), payload(2, 2, 15), payload(3, 0, 0), payload(1, 1, 4)],
        hit_regions: Vec::new(),
    };
    ingest_images(&mut images, &list);
    assert_eq!(images.get(1).unwrap().width, 1, "a later payload replaces the image");
    assert_eq!(images.get(1).unwrap().pixels, vec![7; 4]);
    assert!(images.get(2).is_none(), "its bytes do not fit its size");
    assert!(images.get(3).is_some());
}

#[test]
fn painting_goes_by_order_and_keeps_it() {
    assert_eq!(painting_order(&vec![3, 1, 2, 1, 3]), vec![1, 3, 2, 0, 4]);
    assert_eq!(painting_order(&Vec::new()), Vec::<usize>::new());
    let layers = layers(&vec![3, 1, 2, 1, 3]);
    let shape: Vec<(u32, Vec<usize>)> =
        layers.into_iter().map(|layer| (layer.order, layer.indices)).collect();
    assert_eq!(shape, vec![(1, vec![1, 3]), (2, vec![2]), (3, vec![0, 4])]);
}

fn image(opacity: Scalar) -> Primitive {
    Primitive::Image(Image {
        image_id: 5,
        bounds: bounds(),
        content_mask: bounds(),
        corner_radii: square_corners(),
        grayscale: false,
        opacity,
    })
}

#[test]
fn images_are_painted_where_they_are_known() {
    let mut images: Table<RenderImage> = Table::new();
    assert!(paint_primitive(&image(one()), &images).is_none());
    images.insert(5, RenderImage { width: 1, height: 1, pixels: vec![0; 4] });
    assert!(matches!(
        paint_primitive(&image(one()), &images),
        Some(Paint::Image { translucent: false, .. })
    ));
    assert!(matches!(
        paint_primitive(&image(scalar(0.5)), &images),
        Some(Paint::Image { translucent: true, .. })
    ));
}

#[test]
fn paths_are_painted_by_triangles() {
    let images: Table<RenderImage> = Table::new();
    let vertex = |n: u8| PathVertex { xy: at(n as f32, 0.0), st: at(0.0, 1.0) };
    let path = |count: u8| Primitive::Path(Path {
        content_mask: bounds(),
        color: white(),
        vertices: (0..count).map(vertex).collect(),
    });
    match paint_primitive(&path(7), &images) {
        Some(Paint::Path { start, triangles, .. }) => {
            assert_eq!(start, at(0.0, 0.0));
            assert_eq!(triangles.len(), 2, "an incomplete triangle is left out");
            assert_eq!(triangles[1].third, vertex(5));
        }
        other => panic!("{}", other.is_some()),
    }
    assert!(paint_primitive(&path(0), &images).is_none());
    let mut scene = empty_scene();
    scene.paths.push(PaintedPath {
        order: 9,
        content_mask: bounds(),
        fill: Fill::Solid(red()),
        vertices: (0..3).map(vertex).collect(),
    });
    let (list, _) = serialize_scene(scene, Vec::new());
    assert!(matches!(&list.primitives[0].prim, Primitive::Path(path) if path.vertices.len() == 3));
}

#[test]
fn replaying_paints_layer_by_layer() {
    let placed = |order: u32| PlacedPrimitive { order, prim: Primitive::Quad(quad(red())) };
    let list = DisplayList {
        primitives: vec![placed(2), placed(1), placed(2)],
        new_images: Vec::new(),
        hit_regions: Vec::new(),
    };
    let painted = replay(&list, &Table::new());
    let sizes: Vec<usize> = painted.iter().map(|layer| layer.paints.len()).collect();
    assert_eq!(sizes, vec![1, 2]);
}
