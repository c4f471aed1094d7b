//! Text shaping for a plugin: what it asks the host's text system, and what it is told.

use vstd::prelude::*;
use vstd::string::*;
use crate::display_list::{zero, Bounds, Extent, WirePoint};
use crate::platform_types::Scalar;

verus! {

/// A font as a plugin asks for it.
pub struct FontDescriptor {
    pub family: String,
    pub weight: Scalar,
    pub italic: bool,
}

/// How a font's letters stand.
#[derive(Clone, Copy, Debug, PartialEq, Eq, Structural)]
pub enum FontStyle {
    Normal,
    Italic,
}

/// A font as the text system is asked for it: without features or fallbacks of its own.
pub struct Font {
    pub family: String,
    pub weight: Scalar,
    pub style: FontStyle,
}

/// What a font holds.
pub struct FontModel {
    pub family: Seq<char>,
    pub weight: Scalar,
    pub style: FontStyle,
}

impl View for Font {
    type V = FontModel;

    open spec fn view(&self) -> FontModel {
        FontModel { family: self.family@, weight: self.weight, style: self.style }
    }
}

/// What to do next about a font.
pub enum FontStep {
    /// Ask the text system for this one.
    Ask(Font),
    /// Use this one.
    Use(u32),
}

/// The families to be tried, in order.
pub open spec fn families(requested: Seq<char>) -> Seq<Seq<char>> {
    seq![requested, ".SystemUIFont"@, "Helvetica"@]
}

/// The font with some family and the looks that were asked for.
pub open spec fn font_model(family: Seq<char>, descriptor: FontDescriptor) -> FontModel {
    FontModel {
        family,
        weight: descriptor.weight,
        style: if descriptor.italic {
            FontStyle::Italic
        } else {
            FontStyle::Normal
        },
    }
}

/// Whether `step` is what is next after `tried` families were asked for in vain.
pub open spec fn is_font_step(descriptor: FontDescriptor, tried: nat, step: FontStep) -> bool {
    match step {
        FontStep::Ask(font) => tried < 3 && font@ == font_model(
            families(descriptor.family@)[tried as int],
            descriptor,
        ),
        FontStep::Use(id) => tried >= 3 && id == 0,
    }
}

fn font(family: String, descriptor: &FontDescriptor) -> (font: Font)
    ensures
        font@ == font_model(family@, *descriptor),
{
    Font {
        family,
        weight: descriptor.weight,
        style: if descriptor.italic {
            FontStyle::Italic
        } else {
            FontStyle::Normal
        },
    }
}

/// Resolve a font: ask for the requested family, then for the fallbacks, and settle for the
/// font 0 when there is none. `tried` counts the families asked for so far, and `found` is
/// what the last of them was answered with.
pub fn resolve_font(descriptor: &FontDescriptor, tried: u32, found: Option<u64>) -> (step:
    FontStep)
    ensures
        match found {
            Some(id) => step == FontStep::Use(id as u32),
            None => is_font_step(*descriptor, tried as nat, step),
        },
{
    if let Some(id) = found {
        #[verifier::truncate]
        let narrow: u32 = id as u32;
        return FontStep::Use(narrow);
    }
    if tried == 0 {
        FontStep::Ask(font(descriptor.family.clone(), descriptor))
    } else if tried == 1 {
        FontStep::Ask(font(".SystemUIFont".to_owned(), descriptor))
    } else if tried == 2 {
        FontStep::Ask(font("Helvetica".to_owned(), descriptor))
    } else {
        FontStep::Use(0)
    }
}

/// A font's measures.
#[derive(Clone, Copy, Debug, PartialEq, Eq, Structural)]
pub struct FontMetrics {
    pub units_per_em: u32,
    pub ascent: Scalar,
    pub descent: Scalar,
    pub line_gap: Scalar,
    pub underline_position: Scalar,
    pub underline_thickness: Scalar,
    pub cap_height: Scalar,
    pub x_height: Scalar,
    pub bounding_box: Bounds,
}

/// A run of one font, as a plugin sends it.
#[derive(Clone, Copy, Debug, PartialEq, Eq, Structural)]
pub struct FontRun {
    pub len: u32,
    pub font_id: u32,
}

/// A run of one font, as the text system takes it.
#[derive(Clone, Copy, Debug, PartialEq, Eq, Structural)]
pub struct PlatformFontRun {
    pub len: u64,
    pub font_id: u64,
}

/// The same run in the text system's numbers.
pub open spec fn widened(run: FontRun) -> PlatformFontRun {
    PlatformFontRun { len: run.len as u64, font_id: run.font_id as u64 }
}

/// The runs of a line, as the text system takes them.
pub fn platform_runs(runs: &Vec<FontRun>) -> (widened_runs: Vec<PlatformFontRun>)
    ensures
        widened_runs@ == runs@.map_values(|run: FontRun| widened(run)),
{
    let mut out: Vec<PlatformFontRun> = Vec::new();
    let mut i: usize = 0;
    while i < runs.len()
        invariant
            i <= runs.len(),
            out@ == runs@.take(i as int).map_values(|run: FontRun| widened(run)),
        decreases runs.len() - i,
    {
        out.push(PlatformFontRun { len: runs[i].len as u64, font_id: runs[i].font_id as u64 });
        assert(out@ =~= runs@.take(i as int + 1).map_values(|run: FontRun| widened(run)));
        i += 1;
    }
    assert(runs@.take(i as int) =~= runs@);
    out
}

/// A glyph the text system placed.
#[derive(Clone, Copy, Debug, PartialEq, Eq, Structural)]
pub struct PlatformGlyph {
    pub id: u32,
    pub position: WirePoint,
    pub index: u64,
    pub is_emoji: bool,
}

/// A run the text system shaped.
pub struct PlatformRun {
    pub font_id: u64,
    pub glyphs: Vec<PlatformGlyph>,
}

/// A line the text system laid out.
pub struct PlatformLine {
    pub font_size: Scalar,
    pub width: Scalar,
    pub ascent: Scalar,
    pub descent: Scalar,
    pub len: u64,
    pub runs: Vec<PlatformRun>,
}

/// A glyph as a plugin is told of it.
#[derive(Clone, Copy, Debug, PartialEq, Eq, Structural)]
pub struct ShapedGlyph {
    pub id: u32,
    pub position: WirePoint,
    pub index: u32,
    pub is_emoji: bool,
}

/// A run as a plugin is told of it.
pub struct ShapedRun {
    pub font_id: u32,
    pub glyphs: Vec<ShapedGlyph>,
}

/// A line as a plugin is told of it.
pub struct LineLayout {
    pub font_size: Scalar,
    pub width: Scalar,
    pub ascent: Scalar,
    pub descent: Scalar,
    pub len: u32,
    pub runs: Vec<ShapedRun>,
}

/// A glyph in the plugin's numbers: positions in the text are cut to 32 bits.
pub open spec fn shaped_glyph(glyph: PlatformGlyph) -> ShapedGlyph {
    ShapedGlyph {
        id: glyph.id,
        position: glyph.position,
        index: glyph.index as u32,
        is_emoji: glyph.is_emoji,
    }
}

/// Whether `shaped` is a run in the plugin's numbers, glyph for glyph.
pub open spec fn is_shaped_run(shaped: ShapedRun, run: PlatformRun) -> bool {
    &&& shaped.font_id == run.font_id as u32
    &&& shaped.glyphs@ == run.glyphs@.map_values(|glyph: PlatformGlyph| shaped_glyph(glyph))
}

fn shaped_run(run: &PlatformRun) -> (shaped: ShapedRun)
    ensures
        is_shaped_run(shaped, *run),
{
    let mut glyphs: Vec<ShapedGlyph> = Vec::new();
    let mut i: usize = 0;
    while i < run.glyphs.len()
        invariant
            i <= run.glyphs.len(),
            glyphs@ == run.glyphs@.take(i as int).map_values(
                |glyph: PlatformGlyph| shaped_glyph(glyph),
            ),
        decreases run.glyphs.len() - i,
    {
        let glyph: PlatformGlyph = run.glyphs[i];
        glyphs.push(
            ShapedGlyph {
                id: glyph.id,
                position: glyph.position,
                index: #[verifier::truncate]
                (glyph.index as u32),
                is_emoji: glyph.is_emoji,
            },
        );
        assert(glyphs@ =~= run.glyphs@.take(i as int + 1).map_values(
            |glyph: PlatformGlyph| shaped_glyph(glyph),
        ));
        i += 1;
    }
    assert(run.glyphs@.take(i as int) =~= run.glyphs@);
    ShapedRun {
        font_id: #[verifier::truncate]
        (run.font_id as u32),
        glyphs,
    }
}

/// Tell a plugin of a line that was laid out.
pub fn convert_line_layout(layout: &PlatformLine) -> (line: LineLayout)
    ensures
        line.font_size == layout.font_size,
        line.width == layout.width,
        line.ascent == layout.ascent,
        line.descent == layout.descent,
        line.len == layout.len as u32,
        line.runs@.len() == layout.runs@.len(),
        forall|i: int|
            0 <= i < layout.runs@.len() ==> is_shaped_run(
                #[trigger] line.runs@[i],
                layout.runs@[i],
            ),
        forall|i: int, g: int|
            0 <= i < layout.runs@.len() && 0 <= g < layout.runs@[i].glyphs@.len() ==> {
                let placed = layout.runs@[i].glyphs@[g];
                let shaped = #[trigger] line.runs@[i].glyphs@[g];
                &&& shaped.id == placed.id
                &&& shaped.position.x == placed.position.x
                &&& shaped.position.y == placed.position.y
                &&& shaped.is_emoji == placed.is_emoji
            },
{
    let mut runs: Vec<ShapedRun> = Vec::new();
    let mut i: usize = 0;
    while i < layout.runs.len()
        invariant
            i <= layout.runs.len(),
            runs@.len() == i,
            forall|j: int|
                0 <= j < i ==> is_shaped_run(#[trigger] runs@[j], layout.runs@[j]),
        decreases layout.runs.len() - i,
    {
        runs.push(shaped_run(&layout.runs[i]));
        i += 1;
    }
    proof {
        assert forall|i: int, g: int|
            0 <= i < layout.runs@.len() && 0 <= g < layout.runs@[i].glyphs@.len() implies {
            let placed = layout.runs@[i].glyphs@[g];
            let shaped = #[trigger] runs@[i].glyphs@[g];
            &&& shaped.id == placed.id
            &&& shaped.position.x == placed.position.x
            &&& shaped.position.y == placed.position.y
            &&& shaped.is_emoji == placed.is_emoji
        } by {
            glyphs_stand_where_they_were_placed(layout.runs@[i], runs@[i], g);
        }
    }
    LineLayout {
        font_size: layout.font_size,
        width: layout.width,
        ascent: layout.ascent,
        descent: layout.descent,
        len: #[verifier::truncate]
        (layout.len as u32),
        runs,
    }
}

/// Glyphs stand where the text system placed them: a plugin is told of as many glyphs as it
/// placed, in order, each with its number, where it is from left to right and from top to
/// bottom, and whether it is an emoji. Places in the text and font numbers come through as they
/// are where they fit into 32 bits.
pub proof fn glyphs_stand_where_they_were_placed(run: PlatformRun, shaped: ShapedRun, g: int)
    requires
        is_shaped_run(shaped, run),
    ensures
        shaped.glyphs@.len() == run.glyphs@.len(),
        run.font_id <= u32::MAX ==> shaped.font_id == run.font_id,
        0 <= g < run.glyphs@.len() ==> {
            &&& shaped.glyphs@[g].id == run.glyphs@[g].id
            &&& shaped.glyphs@[g].position.x == run.glyphs@[g].position.x
            &&& shaped.glyphs@[g].position.y == run.glyphs@[g].position.y
            &&& shaped.glyphs@[g].is_emoji == run.glyphs@[g].is_emoji
            &&& run.glyphs@[g].index <= u32::MAX ==> shaped.glyphs@[g].index
                == run.glyphs@[g].index
        },
{
}

/// Fonts are asked for in the family the plugin named, then in the system's own, then in
/// Helvetica, always with the weight and the slant it named.
pub proof fn fonts_are_asked_for_as_named(descriptor: FontDescriptor, tried: nat, step: FontStep)
    requires
        is_font_step(descriptor, tried, step),
    ensures
        step is Ask <==> tried < 3,
        step matches FontStep::Use(id) ==> id == 0,
        step matches FontStep::Ask(font) ==> {
            &&& tried == 0 ==> font.family@ == descriptor.family@
            &&& tried == 1 ==> font.family@ == ".SystemUIFont"@
            &&& tried == 2 ==> font.family@ == "Helvetica"@
            &&& font.weight == descriptor.weight
            &&& font.style is Italic <==> descriptor.italic
        },
{
}

/// Runs reach the text system one for one: as long as the plugin made them, and in the fonts it
/// named.
pub proof fn runs_keep_their_fonts(runs: Seq<FontRun>, i: int)
    requires
        0 <= i < runs.len(),
    ensures
        runs.map_values(|run: FontRun| widened(run)).len() == runs.len(),
        runs.map_values(|run: FontRun| widened(run))[i].len == runs[i].len,
        runs.map_values(|run: FontRun| widened(run))[i].font_id == runs[i].font_id,
{
}

/// How far a glyph moves the pen; not at all where the text system fails.
pub fn advance(answer: Option<Extent>) -> (extent: Extent)
    ensures
        extent == (match answer {
            Some(extent) => extent,
            None => Extent { width: zero(), height: zero() },
        }),
{
    match answer {
        Some(extent) => extent,
        None => Extent { width: zero(), height: zero() },
    }
}

/// A glyph's bounds; empty ones where the text system fails.
pub fn typographic_bounds(answer: Option<Bounds>) -> (bounds: Bounds)
    ensures
        bounds == (match answer {
            Some(bounds) => bounds,
            None => Bounds {
                origin: WirePoint { x: zero(), y: zero() },
                size: Extent { width: zero(), height: zero() },
            },
        }),
{
    match answer {
        Some(bounds) => bounds,
        None => Bounds {
            origin: WirePoint { x: zero(), y: zero() },
            size: Extent { width: zero(), height: zero() },
        },
    }
}

/// A glyph to be measured in pixels, as a plugin asks for it.
#[derive(Clone, Copy, Debug, PartialEq, Eq, Structural)]
pub struct GlyphParams {
    pub font_id: u32,
    pub glyph_id: u32,
    pub font_size: Scalar,
    pub subpixel_variant_x: u8,
    pub subpixel_variant_y: u8,
    pub scale_factor: Scalar,
    pub is_emoji: bool,
}

/// A glyph to be measured in pixels, as the text system takes it.
#[derive(Clone, Copy, Debug, PartialEq, Eq, Structural)]
pub struct RenderGlyphParams {
    pub font_id: u64,
    pub glyph_id: u32,
    pub font_size: Scalar,
    pub subpixel_variant_x: u8,
    pub subpixel_variant_y: u8,
    pub scale_factor: Scalar,
    pub is_emoji: bool,
    pub subpixel_rendering: bool,
    pub dilation: u8,
}

/// Bounds in device pixels.
#[derive(Clone, Copy, Debug, PartialEq, Eq, Structural)]
pub struct DeviceBounds {
    pub origin_x: i32,
    pub origin_y: i32,
    pub width: i32,
    pub height: i32,
}

/// What the text system is asked about a glyph: never with subpixel rendering or dilation.
pub fn raster_request(params: GlyphParams) -> (request: RenderGlyphParams)
    ensures
        request == (RenderGlyphParams {
            font_id: params.font_id as u64,
            glyph_id: params.glyph_id,
            font_size: params.font_size,
            subpixel_variant_x: params.subpixel_variant_x,
            subpixel_variant_y: params.subpixel_variant_y,
            scale_factor: params.scale_factor,
            is_emoji: params.is_emoji,
            subpixel_rendering: false,
            dilation: 0,
        }),
{
    RenderGlyphParams {
        font_id: params.font_id as u64,
        glyph_id: params.glyph_id,
        font_size: params.font_size,
        subpixel_variant_x: params.subpixel_variant_x,
        subpixel_variant_y: params.subpixel_variant_y,
        scale_factor: params.scale_factor,
        is_emoji: params.is_emoji,
        subpixel_rendering: false,
        dilation: 0,
    }
}

/// A glyph's bounds in pixels; empty ones where the text system fails.
pub fn glyph_raster_bounds(answer: Option<DeviceBounds>) -> (bounds: DeviceBounds)
    ensures
        bounds == (match answer {
            Some(bounds) => bounds,
            None => DeviceBounds { origin_x: 0, origin_y: 0, width: 0, height: 0 },
        }),
{
    match answer {
        Some(bounds) => bounds,
        None => DeviceBounds { origin_x: 0, origin_y: 0, width: 0, height: 0 },
    }
}

} // verus!
