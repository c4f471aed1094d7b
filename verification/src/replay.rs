//! Replaying a display list: primitives are grouped by ascending order, and each group is
//! painted as a layer of its own, so the guest's stacking is preserved.

use vstd::prelude::*;
use crate::display_list::{
    Bounds, DisplayList, Glyph, Hsla, Image, Path, PathVertex, PlacedPrimitive, Primitive, Quad,
    Shadow, Underline, WirePoint, ONE_BITS,
};
use crate::images::RenderImage;
use crate::sequences::{lemma_mapped_in_order, lemma_mapped_place};
use crate::table::Table;

verus! {

/// Whether item `a` is painted before item `b`: a lower order first, and among equal
/// orders the one that stands first in the list.
pub open spec fn painted_before(orders: Seq<u32>, a: usize, b: usize) -> bool {
    orders[a as int] < orders[b as int] || (orders[a as int] == orders[b as int] && a < b)
}

/// Whether `indices` lists the items from `low` up to `high`, each once, as painted.
pub open spec fn in_painting_order(
    orders: Seq<u32>,
    indices: Seq<usize>,
    low: int,
    high: int,
) -> bool {
    &&& indices.len() == high - low
    &&& forall|i: int| 0 <= i < indices.len() ==> low <= #[trigger] indices[i] < high
    &&& forall|index: usize| low <= index < high ==> #[trigger] indices.contains(index)
    &&& forall|i: int, j: int|
        0 <= i < j < indices.len() ==> painted_before(
            orders,
            #[trigger] indices[i],
            #[trigger] indices[j],
        )
}

fn merge(orders: &Vec<u32>, first: Vec<usize>, second: Vec<usize>, low: usize, middle: usize, high: usize) -> (merged:
    Vec<usize>)
    requires
        low <= middle <= high <= orders@.len(),
        in_painting_order(orders@, first@, low as int, middle as int),
        in_painting_order(orders@, second@, middle as int, high as int),
    ensures
        in_painting_order(orders@, merged@, low as int, high as int),
{
    let mut merged: Vec<usize> = Vec::new();
    let mut i: usize = 0;
    let mut j: usize = 0;
    while i < first.len() || j < second.len()
        invariant
            low <= middle <= high <= orders@.len(),
            in_painting_order(orders@, first@, low as int, middle as int),
            in_painting_order(orders@, second@, middle as int, high as int),
            i <= first.len(),
            j <= second.len(),
            merged@.len() == i + j,
            forall|k: int| 0 <= k < merged@.len() ==> low <= #[trigger] merged@[k] < high,
            forall|k: int| 0 <= k < i ==> merged@.contains(#[trigger] first@[k]),
            forall|k: int| 0 <= k < j ==> merged@.contains(#[trigger] second@[k]),
            forall|a: int, b: int|
                0 <= a < b < merged@.len() ==> painted_before(
                    orders@,
                    #[trigger] merged@[a],
                    #[trigger] merged@[b],
                ),
            forall|a: int, b: int|
                0 <= a < merged@.len() && i <= b < first@.len() ==> painted_before(
                    orders@,
                    #[trigger] merged@[a],
                    #[trigger] first@[b],
                ),
            forall|a: int, b: int|
                0 <= a < merged@.len() && j <= b < second@.len() ==> painted_before(
                    orders@,
                    #[trigger] merged@[a],
                    #[trigger] second@[b],
                ),
        decreases first.len() - i + second.len() - j,
    {
        let take_first = if i == first.len() {
            false
        } else if j == second.len() {
            true
        } else {
            orders[first[i]] <= orders[second[j]]
        };
        let ghost before = merged@;
        let next: usize = if take_first {
            first[i]
        } else {
            second[j]
        };
        merged.push(next);
        assert(merged@[before.len() as int] == next);
        assert(forall|item: usize| before.contains(item) ==> merged@.contains(item)) by {
            broadcast use vstd::seq_lib::group_seq_properties;

        }
        if take_first {
            i += 1;
        } else {
            j += 1;
        }
    }
    assert forall|index: usize| low <= index < high implies #[trigger] merged@.contains(index) by {
        if index < middle {
            assert(first@.contains(index));
            let k = choose|k: int| 0 <= k < first@.len() && first@[k] == index;
            assert(merged@.contains(first@[k]));
        } else {
            assert(second@.contains(index));
            let k = choose|k: int| 0 <= k < second@.len() && second@[k] == index;
            assert(merged@.contains(second@[k]));
        }
    }
    merged
}

fn sort_range(orders: &Vec<u32>, low: usize, high: usize) -> (indices: Vec<usize>)
    requires
        low <= high <= orders@.len(),
    ensures
        in_painting_order(orders@, indices@, low as int, high as int),
    decreases high - low,
{
    if high - low == 0 {
        Vec::new()
    } else if high - low == 1 {
        let mut single: Vec<usize> = Vec::new();
        single.push(low);
        assert(single@[0] == low);
        single
    } else {
        let middle: usize = low + (high - low) / 2;
        let first = sort_range(orders, low, middle);
        let second = sort_range(orders, middle, high);
        merge(orders, first, second, low, middle, high)
    }
}

/// The items of a list in the order they are painted.
pub fn painting_order(orders: &Vec<u32>) -> (indices: Vec<usize>)
    ensures
        in_painting_order(orders@, indices@, 0, orders@.len() as int),
{
    sort_range(orders, 0, orders.len())
}

/// The items painted as one layer.
#[derive(Debug, PartialEq)]
pub struct Layer {
    pub order: u32,
    pub indices: Vec<usize>,
}

/// The items of some layers, one layer after the other.
pub open spec fn layered_indices(layers: Seq<Layer>) -> Seq<usize>
    decreases layers.len(),
{
    if layers.len() == 0 {
        Seq::empty()
    } else {
        layered_indices(layers.drop_last()) + layers.last().indices@
    }
}

/// Whether `layers` stacks items as painted: ascending orders, each layer made of the
/// items of its order.
pub open spec fn stacked(orders: Seq<u32>, layers: Seq<Layer>) -> bool {
    &&& forall|l: int|
        0 <= l < layers.len() ==> (#[trigger] layers[l]).indices@.len() > 0 && (forall|i: int|
            0 <= i < layers[l].indices@.len() ==> orders[(
            #[trigger] layers[l].indices@[i]) as int] == layers[l].order)
    &&& forall|a: int, b: int|
        0 <= a < b < layers.len() ==> (#[trigger] layers[a]).order < (#[trigger] layers[b]).order
}

/// Group the items of a list into the layers they are painted as.
pub fn layers(orders: &Vec<u32>) -> (layers: Vec<Layer>)
    ensures
        stacked(orders@, layers@),
        in_painting_order(orders@, layered_indices(layers@), 0, orders@.len() as int),
{
    let indices = painting_order(orders);
    let mut layers: Vec<Layer> = Vec::new();
    let mut start: usize = 0;
    assert(layered_indices(layers@) =~= indices@.take(0));
    while start < indices.len()
        invariant
            start <= indices.len(),
            in_painting_order(orders@, indices@, 0, orders@.len() as int),
            stacked(orders@, layers@),
            layered_indices(layers@) == indices@.take(start as int),
            layers@.len() > 0 && start < indices.len() ==> layers@.last().order < orders@[
                indices@[start as int] as int
            ],
        decreases indices.len() - start,
    {
        let order: u32 = orders[indices[start]];
        let mut layer: Vec<usize> = Vec::new();
        layer.push(indices[start]);
        let mut end: usize = start + 1;
        while end < indices.len() && orders[indices[end]] == order
            invariant
                start < end <= indices.len(),
                in_painting_order(orders@, indices@, 0, orders@.len() as int),
                layer@ == indices@.subrange(start as int, end as int),
                forall|i: int|
                    0 <= i < layer@.len() ==> orders@[(#[trigger] layer@[i]) as int] == order,
            decreases indices.len() - end,
        {
            layer.push(indices[end]);
            end += 1;
            assert(layer@ =~= indices@.subrange(start as int, end as int));
        }
        let ghost before = layers@;
        layers.push(Layer { order, indices: layer });
        proof {
            assert(layers@.drop_last() =~= before);
            assert(layered_indices(layers@) =~= indices@.take(end as int));
            assert forall|a: int, b: int| 0 <= a < b < layers@.len() implies (
            #[trigger] layers@[a]).order < (#[trigger] layers@[b]).order by {
                if b == before.len() {
                    assert(before.last().order < order);
                    if a < before.len() - 1 {
                        assert(before[a].order < before[before.len() - 1].order);
                    }
                }
            }
            if end < indices.len() {
                assert(painted_before(orders@, indices@[start as int], indices@[end as int]));
            }
        }
        start = end;
    }
    assert(indices@.take(start as int) =~= indices@);
    layers
}

/// Three corners of a filled path.
#[derive(Clone, Copy, Debug, PartialEq, Eq, Structural)]
pub struct Triangle {
    pub first: PathVertex,
    pub second: PathVertex,
    pub third: PathVertex,
}

/// One paint call of a replay. Positions are still relative to the slot.
#[derive(Debug, PartialEq)]
pub enum Paint {
    Quad(Quad),
    DropShadow(Shadow),
    Underline(Underline),
    Glyph(Glyph),
    Emoji(Glyph),
    Path { start: WirePoint, triangles: Vec<Triangle>, color: Hsla, content_mask: Bounds },
    /// An image that is known. Painted fully opaque, which `translucent` says it is not.
    Image { image: Image, translucent: bool },
}

/// What a [`Paint`] holds.
#[verifier::ext_equal]
pub enum PaintModel {
    Quad(Quad),
    DropShadow(Shadow),
    Underline(Underline),
    Glyph(Glyph),
    Emoji(Glyph),
    Path { start: WirePoint, triangles: Seq<Triangle>, color: Hsla, content_mask: Bounds },
    Image { image: Image, translucent: bool },
}

impl View for Paint {
    type V = PaintModel;

    open spec fn view(&self) -> PaintModel {
        match *self {
            Paint::Quad(quad) => PaintModel::Quad(quad),
            Paint::DropShadow(shadow) => PaintModel::DropShadow(shadow),
            Paint::Underline(underline) => PaintModel::Underline(underline),
            Paint::Glyph(glyph) => PaintModel::Glyph(glyph),
            Paint::Emoji(glyph) => PaintModel::Emoji(glyph),
            Paint::Path { start, triangles, color, content_mask } => PaintModel::Path {
                start,
                triangles: triangles@,
                color,
                content_mask,
            },
            Paint::Image { image, translucent } => PaintModel::Image { image, translucent },
        }
    }
}

/// The triangles of a path: its vertices by threes; what is left over is dropped.
pub open spec fn triangles_of(vertices: Seq<PathVertex>) -> Seq<Triangle> {
    Seq::new(
        vertices.len() / 3,
        |i: int|
            Triangle {
                first: vertices[3 * i],
                second: vertices[3 * i + 1],
                third: vertices[3 * i + 2],
            },
    )
}

/// The paint call a primitive makes: a path without a whole triangle makes none, nor does
/// an image whose pixels have not arrived.
pub open spec fn paint_of(primitive: Primitive, images: Set<u64>) -> Option<PaintModel> {
    match primitive {
        Primitive::Quad(quad) => Some(PaintModel::Quad(quad)),
        Primitive::Shadow(shadow) => Some(PaintModel::DropShadow(shadow)),
        Primitive::Underline(underline) => Some(PaintModel::Underline(underline)),
        Primitive::Glyph(glyph) => if glyph.is_emoji {
            Some(PaintModel::Emoji(glyph))
        } else {
            Some(PaintModel::Glyph(glyph))
        },
        Primitive::Path(path) => if path.vertices@.len() < 3 {
            None
        } else {
            Some(
                PaintModel::Path {
                    start: path.vertices@[0].xy,
                    triangles: triangles_of(path.vertices@),
                    color: path.color,
                    content_mask: path.content_mask,
                },
            )
        },
        Primitive::Image(image) => if images.contains(image.image_id) {
            Some(PaintModel::Image { image, translucent: image.opacity.bits != ONE_BITS })
        } else {
            None
        },
    }
}

fn triangulate(vertices: &Vec<PathVertex>) -> (triangles: Vec<Triangle>)
    ensures
        triangles@ == triangles_of(vertices@),
{
    let total: usize = vertices.len();
    let count: usize = total / 3;
    let mut triangles: Vec<Triangle> = Vec::new();
    let mut i: usize = 0;
    while i < count
        invariant
            i <= count,
            total == vertices@.len(),
            count == total / 3,
            triangles@.len() == i,
            forall|j: int| 0 <= j < i ==> #[trigger] triangles@[j] == triangles_of(vertices@)[j],
        decreases count - i,
    {
        triangles.push(
            Triangle {
                first: vertices[3 * i],
                second: vertices[3 * i + 1],
                third: vertices[3 * i + 2],
            },
        );
        i += 1;
    }
    assert(triangles@ =~= triangles_of(vertices@));
    triangles
}

/// The paint call a primitive makes, if any.
pub fn paint_primitive(primitive: &Primitive, images: &Table<RenderImage>) -> (paint: Option<Paint>)
    ensures
        match paint {
            Some(paint) => paint_of(*primitive, images@.dom()) == Some(paint@),
            None => paint_of(*primitive, images@.dom()) is None,
        },
{
    match primitive {
        Primitive::Quad(quad) => Some(Paint::Quad(*quad)),
        Primitive::Shadow(shadow) => Some(Paint::DropShadow(*shadow)),
        Primitive::Underline(underline) => Some(Paint::Underline(*underline)),
        Primitive::Glyph(glyph) => if glyph.is_emoji {
            Some(Paint::Emoji(*glyph))
        } else {
            Some(Paint::Glyph(*glyph))
        },
        Primitive::Path(path) => if path.vertices.len() < 3 {
            None
        } else {
            Some(
                Paint::Path {
                    start: path.vertices[0].xy,
                    triangles: triangulate(&path.vertices),
                    color: path.color,
                    content_mask: path.content_mask,
                },
            )
        },
        Primitive::Image(image) => if images.contains_key(image.image_id) {
            Some(Paint::Image { image: *image, translucent: image.opacity.bits != ONE_BITS })
        } else {
            None
        },
    }
}

/// The paint calls of one layer.
#[derive(Debug, PartialEq)]
pub struct PaintLayer {
    pub paints: Vec<Paint>,
}

impl View for PaintLayer {
    type V = Seq<PaintModel>;

    open spec fn view(&self) -> Seq<PaintModel> {
        self.paints@.map_values(|paint: Paint| paint@)
    }
}

/// The paint calls these items make, in order.
pub open spec fn paints_of(
    primitives: Seq<PlacedPrimitive>,
    indices: Seq<usize>,
    images: Set<u64>,
) -> Seq<PaintModel> {
    indices.filter_map(|index: usize| paint_of(primitives[index as int].prim, images))
}

/// Whether `painted` are the paint calls of `layers`, which stack all of the primitives.
pub open spec fn replays(
    primitives: Seq<PlacedPrimitive>,
    images: Set<u64>,
    layers: Seq<Layer>,
    painted: Seq<PaintLayer>,
) -> bool {
    let orders = primitives.map_values(|placed: PlacedPrimitive| placed.order);
    &&& stacked(orders, layers)
    &&& in_painting_order(orders, layered_indices(layers), 0, orders.len() as int)
    &&& painted.len() == layers.len()
    &&& forall|l: int|
        0 <= l < layers.len() ==> (#[trigger] painted[l])@ == paints_of(
            primitives,
            layers[l].indices@,
            images,
        )
}

/// Whether `painted` are the paint calls of all of the primitives, stacked as painted.
pub open spec fn is_replay(
    primitives: Seq<PlacedPrimitive>,
    images: Set<u64>,
    painted: Seq<PaintLayer>,
) -> bool {
    exists|layers: Seq<Layer>| #[trigger] replays(primitives, images, layers, painted)
}

/// Replay a display list: the layers in painting order, each with its paint calls.
pub fn replay(list: &DisplayList, images: &Table<RenderImage>) -> (painted: Vec<PaintLayer>)
    ensures
        is_replay(list.primitives@, images@.dom(), painted@),
        forall|l: int, k: int|
            0 <= l < painted@.len() && 0 <= k < painted@[l].paints@.len() ==> match (
            #[trigger] painted@[l].paints@[k]) {
                Paint::Emoji(glyph) => glyph.is_emoji,
                Paint::Glyph(glyph) => !glyph.is_emoji,
                _ => true,
            },
{
    let primitives = &list.primitives;
    let mut orders: Vec<u32> = Vec::new();
    let mut i: usize = 0;
    while i < primitives.len()
        invariant
            i <= primitives.len(),
            orders@.len() == i,
            forall|j: int| 0 <= j < i ==> orders@[j] == (#[trigger] primitives@[j]).order,
        decreases primitives.len() - i,
    {
        orders.push(primitives[i].order);
        i += 1;
    }
    assert(orders@ =~= primitives@.map_values(|placed: PlacedPrimitive| placed.order));
    let layers = layers(&orders);
    let mut painted: Vec<PaintLayer> = Vec::new();
    let mut l: usize = 0;
    while l < layers.len()
        invariant
            l <= layers.len(),
            orders@.len() == primitives@.len(),
            in_painting_order(orders@, layered_indices(layers@), 0, orders@.len() as int),
            painted@.len() == l,
            forall|k: int|
                0 <= k < l ==> (#[trigger] painted@[k])@ == paints_of(
                    primitives@,
                    layers@[k].indices@,
                    images@.dom(),
                ),
        decreases layers.len() - l,
    {
        proof {
            lemma_layer_items_are_listed(layers@, l as int);
        }
        let layer = paint_layer(primitives, &layers[l].indices, images);
        painted.push(layer);
        l += 1;
    }
    assert(replays(primitives@, images@.dom(), layers@, painted@));
    proof {
        assert forall|l: int, k: int|
            0 <= l < painted@.len() && 0 <= k < painted@[l].paints@.len() implies match (
        #[trigger] painted@[l].paints@[k]) {
            Paint::Emoji(glyph) => glyph.is_emoji,
            Paint::Glyph(glyph) => !glyph.is_emoji,
            _ => true,
        } by {
            letters_are_no_emoji(primitives@, images@.dom(), painted@, l, k);
            assert(painted@[l]@[k] == painted@[l].paints@[k]@);
        }
    }
    painted
}

proof fn lemma_layer_items_are_listed(layers: Seq<Layer>, l: int)
    requires
        0 <= l < layers.len(),
    ensures
        forall|i: int|
            0 <= i < layers[l].indices@.len() ==> layered_indices(layers).contains(
                #[trigger] layers[l].indices@[i],
            ),
    decreases layers.len(),
{
    let before = layered_indices(layers.drop_last());
    let last = layers.last().indices@;
    assert forall|i: int| 0 <= i < layers[l].indices@.len() implies layered_indices(
        layers,
    ).contains(#[trigger] layers[l].indices@[i]) by {
        if l == layers.len() - 1 {
            assert((before + last)[before.len() + i] == last[i]);
        } else {
            lemma_layer_items_are_listed(layers.drop_last(), l);
            assert(layers.drop_last()[l] == layers[l]);
            assert(before.contains(layers[l].indices@[i]));
            let k = choose|k: int| 0 <= k < before.len() && before[k] == layers[l].indices@[i];
            assert((before + last)[k] == before[k]);
        }
    }
}

fn paint_layer(
    primitives: &Vec<PlacedPrimitive>,
    indices: &Vec<usize>,
    images: &Table<RenderImage>,
) -> (layer: PaintLayer)
    requires
        forall|i: int| 0 <= i < indices@.len() ==> #[trigger] indices@[i] < primitives@.len(),
    ensures
        layer@ == paints_of(primitives@, indices@, images@.dom()),
{
    let ghost each = |index: usize| paint_of(primitives@[index as int].prim, images@.dom());
    let mut layer = PaintLayer { paints: Vec::new() };
    let mut i: usize = 0;
    assert(layer@ =~= indices@.take(0).filter_map(each));
    while i < indices.len()
        invariant
            i <= indices.len(),
            forall|i: int| 0 <= i < indices@.len() ==> #[trigger] indices@[i] < primitives@.len(),
            each == (|index: usize| paint_of(primitives@[index as int].prim, images@.dom())),
            layer@ == indices@.take(i as int).filter_map(each),
        decreases indices.len() - i,
    {
        assert(indices@.take(i as int + 1).drop_last() =~= indices@.take(i as int));
        let ghost before = layer@;
        if let Some(paint) = paint_primitive(&primitives[indices[i]].prim, images) {
            layer.paints.push(paint);
            assert(layer@ =~= before.push(paint@));
        }
        assert(layer@ =~= indices@.take(i as int + 1).filter_map(each));
        i += 1;
    }
    assert(indices@.take(i as int) =~= indices@);
    layer
}

/// Painting order is a rearrangement: no item is lost and none is painted twice.
pub proof fn painting_loses_nothing(orders: Seq<u32>, indices: Seq<usize>)
    requires
        in_painting_order(orders, indices, 0, orders.len() as int),
    ensures
        indices.no_duplicates(),
        forall|index: usize| index < orders.len() <==> #[trigger] indices.contains(index),
{
    assert forall|i: int, j: int| 0 <= i < j < indices.len() implies indices[i] != indices[j] by {
        assert(painted_before(orders, indices[i], indices[j]));
    }
}

/// The items of a layer stand together, behind those of the layers before it.
proof fn lemma_layer_place(layers: Seq<Layer>, l: int, m: int)
    requires
        0 <= l < layers.len(),
        0 <= m < layers[l].indices@.len(),
    ensures
        layered_indices(layers.take(l)).len() + m < layered_indices(layers).len(),
        layered_indices(layers)[layered_indices(layers.take(l)).len() + m] == layers[l].indices@[m],
    decreases layers.len(),
{
    let rest = layers.drop_last();
    if l == layers.len() - 1 {
        assert(layers.take(l) =~= rest);
    } else {
        assert(rest.take(l) =~= layers.take(l));
        lemma_layer_place(rest, l, m);
    }
}

/// Which layer an item is in, and where.
proof fn lemma_layer_of(layers: Seq<Layer>, index: usize) -> (place: (int, int))
    requires
        layered_indices(layers).contains(index),
    ensures
        0 <= place.0 < layers.len(),
        0 <= place.1 < layers[place.0].indices@.len(),
        layers[place.0].indices@[place.1] == index,
    decreases layers.len(),
{
    let at = choose|at: int| 0 <= at < layered_indices(layers).len() && layered_indices(layers)[at]
        == index;
    let before = layered_indices(layers.drop_last());
    if at < before.len() {
        assert(before[at] == index);
        lemma_layer_of(layers.drop_last(), index)
    } else {
        (layers.len() - 1, at - before.len())
    }
}

/// Where in a replay the call of a primitive is made.
proof fn lemma_call_place(
    primitives: Seq<PlacedPrimitive>,
    images: Set<u64>,
    layers: Seq<Layer>,
    painted: Seq<PaintLayer>,
    index: int,
) -> (place: (int, int, int))
    requires
        replays(primitives, images, layers, painted),
        0 <= index < primitives.len(),
        index <= usize::MAX,
        paint_of(primitives[index].prim, images) is Some,
    ensures
        0 <= place.0 < painted.len(),
        0 <= place.1 < painted[place.0]@.len(),
        Some(painted[place.0]@[place.1]) == paint_of(primitives[index].prim, images),
        layers[place.0].order == primitives[index].order,
        0 <= place.2 < layers[place.0].indices@.len(),
        layers[place.0].indices@[place.2] == index,
        place.1 == paints_of(primitives, layers[place.0].indices@.take(place.2), images).len(),
{
    let orders = primitives.map_values(|placed: PlacedPrimitive| placed.order);
    let each = |index: usize| paint_of(primitives[index as int].prim, images);
    assert(layered_indices(layers).contains(index as usize));
    let (l, m) = lemma_layer_of(layers, index as usize);
    lemma_mapped_place(layers[l].indices@, each, m);
    assert(painted[l]@ == paints_of(primitives, layers[l].indices@, images));
    assert(orders[layers[l].indices@[m] as int] == layers[l].order);
    (l, layers[l].indices@.take(m).filter_map(each).len() as int, m)
}

/// Which primitive a call of a replay is for.
proof fn lemma_call_source(
    primitives: Seq<PlacedPrimitive>,
    images: Set<u64>,
    layers: Seq<Layer>,
    painted: Seq<PaintLayer>,
    l: int,
    k: int,
) -> (index: int)
    requires
        replays(primitives, images, layers, painted),
        0 <= l < painted.len(),
        0 <= k < painted[l]@.len(),
    ensures
        0 <= index < primitives.len(),
        paint_of(primitives[index].prim, images) == Some(painted[l]@[k]),
        layers[l].order == primitives[index].order,
{
    let orders = primitives.map_values(|placed: PlacedPrimitive| placed.order);
    let each = |index: usize| paint_of(primitives[index as int].prim, images);
    let indices = layers[l].indices@;
    assert(painted[l]@ == paints_of(primitives, indices, images));
    assert(indices.filter_map(each).contains(painted[l]@[k]));
    indices.lemma_filter_map_contains(each, painted[l]@[k]);
    let source = choose|source: usize| #[trigger] indices.contains(source) && each(source) == Some(
        painted[l]@[k],
    );
    let m = choose|m: int| 0 <= m < indices.len() && indices[m] == source;
    lemma_layer_items_are_listed(layers, l);
    assert(layered_indices(layers).contains(indices[m]));
    assert(orders[indices[m] as int] == layers[l].order);
    source as int
}

/// What a paint call holds is the call itself: of its kind, with what it is made with.
pub proof fn paints_hold_what_they_say(paint: Paint)
    ensures
        match paint {
            Paint::Quad(quad) => paint@ == PaintModel::Quad(quad),
            Paint::DropShadow(shadow) => paint@ == PaintModel::DropShadow(shadow),
            Paint::Underline(underline) => paint@ == PaintModel::Underline(underline),
            Paint::Glyph(glyph) => paint@ == PaintModel::Glyph(glyph),
            Paint::Emoji(glyph) => paint@ == PaintModel::Emoji(glyph),
            Paint::Path { start, triangles, color, content_mask } => {
                &&& paint@ matches PaintModel::Path {
                    start: from,
                    triangles: filled,
                    color: shade,
                    content_mask: mask,
                }
                &&& from == start
                &&& filled == triangles@
                &&& shade == color
                &&& mask == content_mask
            },
            Paint::Image { image, translucent } => paint@ == (PaintModel::Image {
                image,
                translucent,
            }),
        },
{
}

/// Letters are painted as letters and emoji as emoji: a call of a replay is an emoji's exactly
/// where its glyph is one, and each is the glyph of some primitive, as it crossed.
pub proof fn letters_are_no_emoji(
    primitives: Seq<PlacedPrimitive>,
    images: Set<u64>,
    painted: Seq<PaintLayer>,
    l: int,
    k: int,
)
    requires
        is_replay(primitives, images, painted),
        0 <= l < painted.len(),
        0 <= k < painted[l]@.len(),
    ensures
        painted[l]@[k] matches PaintModel::Glyph(glyph) ==> !glyph.is_emoji && exists|i: int|
            0 <= i < primitives.len() && (#[trigger] primitives[i]).prim == Primitive::Glyph(glyph),
        painted[l]@[k] matches PaintModel::Emoji(glyph) ==> glyph.is_emoji && exists|i: int|
            0 <= i < primitives.len() && (#[trigger] primitives[i]).prim == Primitive::Glyph(glyph),
{
    let layers = choose|layers: Seq<Layer>| #[trigger]
        replays(primitives, images, layers, painted);
    let i = lemma_call_source(primitives, images, layers, painted, l, k);
    assert(primitives[i].prim is Glyph || !(painted[l]@[k] is Glyph || painted[l]@[k] is Emoji));
}

/// Every letter is painted, as a letter, and every emoji as an emoji: with the font, the place,
/// the size and the color it crossed with.
pub proof fn every_glyph_is_painted(
    primitives: Seq<PlacedPrimitive>,
    images: Set<u64>,
    painted: Seq<PaintLayer>,
    index: int,
) -> (place: (int, int))
    requires
        is_replay(primitives, images, painted),
        0 <= index < primitives.len() <= usize::MAX,
        primitives[index].prim is Glyph,
    ensures
        0 <= place.0 < painted.len(),
        0 <= place.1 < painted[place.0]@.len(),
        ({
            let glyph = primitives[index].prim->Glyph_0;
            if glyph.is_emoji {
                painted[place.0]@[place.1] == PaintModel::Emoji(glyph)
            } else {
                painted[place.0]@[place.1] == PaintModel::Glyph(glyph)
            }
        }),
{
    let layers = choose|layers: Seq<Layer>| #[trigger]
        replays(primitives, images, layers, painted);
    let (l, k, _) = lemma_call_place(primitives, images, layers, painted, index);
    (l, k)
}

/// Every box, shadow, underline and known image is painted as it crossed, and every path that
/// has a triangle: from its first vertex, in its color, its vertices by threes. An image counts
/// as translucent exactly where its opacity is not one.
pub proof fn every_shape_is_painted(
    primitives: Seq<PlacedPrimitive>,
    images: Set<u64>,
    painted: Seq<PaintLayer>,
    index: int,
) -> (place: (int, int))
    requires
        is_replay(primitives, images, painted),
        0 <= index < primitives.len() <= usize::MAX,
        primitives[index].prim matches Primitive::Path(path) ==> path.vertices@.len() >= 3,
        primitives[index].prim matches Primitive::Image(image) ==> images.contains(image.image_id),
    ensures
        0 <= place.0 < painted.len(),
        0 <= place.1 < painted[place.0]@.len(),
        ({
            let call = painted[place.0]@[place.1];
            match primitives[index].prim {
                Primitive::Quad(quad) => call == PaintModel::Quad(quad),
                Primitive::Shadow(shadow) => call == PaintModel::DropShadow(shadow),
                Primitive::Underline(underline) => call == PaintModel::Underline(underline),
                Primitive::Glyph(_) => call is Glyph || call is Emoji,
                Primitive::Path(path) => {
                    &&& call matches PaintModel::Path { start, triangles, color, content_mask }
                    &&& start == path.vertices@[0].xy
                    &&& color == path.color
                    &&& content_mask == path.content_mask
                    &&& 3 * triangles.len() <= path.vertices@.len() < 3 * triangles.len() + 3
                    &&& forall|t: int|
                        0 <= t < triangles.len() ==> {
                            &&& (#[trigger] triangles[t]).first == path.vertices@[3 * t]
                            &&& triangles[t].second == path.vertices@[3 * t + 1]
                            &&& triangles[t].third == path.vertices@[3 * t + 2]
                        }
                },
                Primitive::Image(image) => call == (PaintModel::Image {
                    image,
                    translucent: image.opacity.bits != 0x3f80_0000,
                }),
            }
        }),
{
    let layers = choose|layers: Seq<Layer>| #[trigger]
        replays(primitives, images, layers, painted);
    let (l, k, _) = lemma_call_place(primitives, images, layers, painted, index);
    (l, k)
}

/// Nothing is painted that did not cross: a path without a triangle and an image whose pixels
/// are not known make no call, and each call is of the kind of its primitive.
pub proof fn only_what_crossed_is_painted(
    primitives: Seq<PlacedPrimitive>,
    images: Set<u64>,
    painted: Seq<PaintLayer>,
    l: int,
    k: int,
) -> (index: int)
    requires
        is_replay(primitives, images, painted),
        0 <= l < painted.len(),
        0 <= k < painted[l]@.len(),
    ensures
        0 <= index < primitives.len(),
        match painted[l]@[k] {
            PaintModel::Quad(quad) => primitives[index].prim == Primitive::Quad(quad),
            PaintModel::DropShadow(shadow) => primitives[index].prim == Primitive::Shadow(shadow),
            PaintModel::Underline(underline) => primitives[index].prim == Primitive::Underline(
                underline,
            ),
            PaintModel::Glyph(glyph) => primitives[index].prim == Primitive::Glyph(glyph),
            PaintModel::Emoji(glyph) => primitives[index].prim == Primitive::Glyph(glyph),
            PaintModel::Path { color, .. } => primitives[index].prim matches Primitive::Path(path)
                && path.color == color && path.vertices@.len() >= 3,
            PaintModel::Image { image, .. } => primitives[index].prim == Primitive::Image(image)
                && images.contains(image.image_id),
        },
{
    let layers = choose|layers: Seq<Layer>| #[trigger]
        replays(primitives, images, layers, painted);
    lemma_call_source(primitives, images, layers, painted, l, k)
}

/// The guest's stacking is preserved: of two boxes (or of a box and a letter, or of whatever is
/// painted) the one of the higher order is painted in a later layer, and of two of one order
/// the one that stands later in the list is painted later in the same layer.
pub proof fn stacking_is_preserved(
    primitives: Seq<PlacedPrimitive>,
    images: Set<u64>,
    painted: Seq<PaintLayer>,
    under: int,
    over: int,
) -> (places: ((int, int), (int, int)))
    requires
        is_replay(primitives, images, painted),
        0 <= under < primitives.len() <= usize::MAX,
        0 <= over < primitives.len(),
        primitives[under].prim is Quad || primitives[under].prim is Shadow
            || primitives[under].prim is Underline || primitives[under].prim is Glyph,
        primitives[over].prim is Quad || primitives[over].prim is Shadow
            || primitives[over].prim is Underline || primitives[over].prim is Glyph,
        primitives[under].order < primitives[over].order || (primitives[under].order
            == primitives[over].order && under < over),
    ensures
        ({
            let ((lower, first), (upper, second)) = places;
            &&& 0 <= lower < painted.len()
            &&& 0 <= upper < painted.len()
            &&& 0 <= first < painted[lower]@.len()
            &&& 0 <= second < painted[upper]@.len()
            &&& primitives[under].order < primitives[over].order ==> lower < upper
            &&& primitives[under].order == primitives[over].order ==> lower == upper && first
                < second
            &&& primitives[under].prim matches Primitive::Quad(quad) ==> painted[lower]@[first]
                == PaintModel::Quad(quad)
            &&& primitives[over].prim matches Primitive::Quad(quad) ==> painted[upper]@[second]
                == PaintModel::Quad(quad)
            &&& primitives[under].prim matches Primitive::Glyph(glyph) ==> painted[lower]@[first]
                == PaintModel::Glyph(glyph) || painted[lower]@[first] == PaintModel::Emoji(glyph)
            &&& primitives[over].prim matches Primitive::Glyph(glyph) ==> painted[upper]@[second]
                == PaintModel::Glyph(glyph) || painted[upper]@[second] == PaintModel::Emoji(glyph)
        }),
{
    let orders = primitives.map_values(|placed: PlacedPrimitive| placed.order);
    let each = |index: usize| paint_of(primitives[index as int].prim, images);
    let layers = choose|layers: Seq<Layer>| #[trigger]
        replays(primitives, images, layers, painted);
    let (lower, first, a) = lemma_call_place(primitives, images, layers, painted, under);
    let (upper, second, b) = lemma_call_place(primitives, images, layers, painted, over);
    if primitives[under].order < primitives[over].order {
        if upper < lower {
            assert(layers[upper].order < layers[lower].order);
        }
    } else {
        if lower < upper {
            assert(layers[lower].order < layers[upper].order);
        }
        if upper < lower {
            assert(layers[upper].order < layers[lower].order);
        }
        let indices = layers[lower].indices@;
        let all = layered_indices(layers);
        let start = layered_indices(layers.take(lower)).len();
        lemma_layer_place(layers, lower, a);
        lemma_layer_place(layers, lower, b);
        if b < a {
            assert(painted_before(orders, all[start + b], all[start + a]));
        }
        assert(a < b);
        lemma_mapped_in_order(indices, each, a, b);
    }
    ((lower, first), (upper, second))
}

} // verus!
