//! Images shipped by a guest, kept for every surface it draws on.

use vstd::prelude::*;
use crate::display_list::{DisplayList, ImagePayload};
use crate::table::Table;

verus! {

/// The pixels of an image, ready to paint: four bytes each, row by row.
#[derive(Debug, PartialEq)]
pub struct RenderImage {
    pub width: u32,
    pub height: u32,
    pub pixels: Vec<u8>,
}

/// What a [`RenderImage`] holds.
#[verifier::ext_equal]
pub struct RenderImageModel {
    pub width: u32,
    pub height: u32,
    pub pixels: Seq<u8>,
}

impl View for RenderImage {
    type V = RenderImageModel;

    open spec fn view(&self) -> RenderImageModel {
        RenderImageModel { width: self.width, height: self.height, pixels: self.pixels@ }
    }
}

/// How many bytes an image of this size takes.
pub open spec fn pixel_bytes(width: u32, height: u32) -> nat {
    (width * height * 4) as nat
}

/// Whether a row of this many pixels can be addressed at all.
pub open spec fn row_fits(width: u32) -> bool {
    width * 4 <= usize::MAX
}

/// The image a payload holds; none where its bytes are not just the pixels of an image of
/// its size.
pub open spec fn decoded(payload: ImagePayload) -> Option<RenderImageModel> {
    if row_fits(payload.width) && payload.bytes@.len() == pixel_bytes(
        payload.width,
        payload.height,
    ) {
        Some(
            RenderImageModel {
                width: payload.width,
                height: payload.height,
                pixels: payload.bytes@,
            },
        )
    } else {
        None
    }
}

/// The images known after these payloads arrived, in order.
pub open spec fn ingested(
    images: Map<u64, RenderImageModel>,
    payloads: Seq<ImagePayload>,
) -> Map<u64, RenderImageModel>
    decreases payloads.len(),
{
    if payloads.len() == 0 {
        images
    } else {
        let before = ingested(images, payloads.drop_last());
        match decoded(payloads.last()) {
            Some(image) => before.insert(payloads.last().id, image),
            None => before,
        }
    }
}

/// The pixel buffer `image::RgbaImage::from_raw` makes of these bytes, given back by
/// `into_raw`. It takes the bytes as they are, and refuses them exactly when a row of that
/// width cannot be addressed or the bytes are too few for the size.
#[verifier::external_body]
fn rgba_pixels(width: u32, height: u32, bytes: Vec<u8>) -> (pixels: Option<Vec<u8>>)
    ensures
        match pixels {
            Some(pixels) => row_fits(width) && bytes@.len() >= pixel_bytes(width, height)
                && pixels@ == bytes@,
            None => !row_fits(width) || bytes@.len() < pixel_bytes(width, height),
        },
{
    image::RgbaImage::from_raw(width, height, bytes).map(|buffer| buffer.into_raw())
}

/// Decode freshly shipped payloads. A payload whose byte count does not fit its size is
/// skipped; one with an id that is known replaces the image.
pub fn ingest_images(images: &mut Table<RenderImage>, list: &DisplayList)
    ensures
        final(images)@ == ingested(old(images)@, list.new_images@),
{
    let payloads = &list.new_images;
    let mut i: usize = 0;
    assert(payloads@.take(0) =~= Seq::<ImagePayload>::empty());
    while i < payloads.len()
        invariant
            i <= payloads.len(),
            images@ == ingested(old(images)@, payloads@.take(i as int)),
        decreases payloads.len() - i,
    {
        let payload = &payloads[i];
        assert(payloads@.take(i as int + 1).drop_last() =~= payloads@.take(i as int));
        if payload.bytes.len() as u128 == expected_bytes(payload.width, payload.height) {
            let bytes = payload.bytes.clone();
            assert(bytes@ =~= payload.bytes@);
            if let Some(pixels) = rgba_pixels(payload.width, payload.height, bytes) {
                images.insert(
                    payload.id,
                    RenderImage { width: payload.width, height: payload.height, pixels },
                );
            }
        }
        i += 1;
    }
    assert(payloads@.take(i as int) =~= payloads@);
}

fn expected_bytes(width: u32, height: u32) -> (bytes: u128)
    ensures
        bytes == pixel_bytes(width, height),
{
    assert(0 <= width * height <= u32::MAX * u32::MAX) by (nonlinear_arith)
        requires
            0 <= width <= u32::MAX,
            0 <= height <= u32::MAX,
    ;
    width as u128 * height as u128 * 4
}

/// Whatever is shipped, every image that is known has just the pixels of its size.
pub proof fn known_images_are_whole(
    images: Map<u64, RenderImageModel>,
    payloads: Seq<ImagePayload>,
    id: u64,
)
    requires
        forall|known: u64| #[trigger]
            images.contains_key(known) ==> images[known].pixels.len() == pixel_bytes(
                images[known].width,
                images[known].height,
            ),
        ingested(images, payloads).contains_key(id),
    ensures
        ({
            let image = ingested(images, payloads)[id];
            image.pixels.len() == pixel_bytes(image.width, image.height)
        }),
    decreases payloads.len(),
{
    if payloads.len() > 0 {
        let rest = payloads.drop_last();
        if decoded(payloads.last()) is Some && payloads.last().id == id {
        } else {
            known_images_are_whole(images, rest, id);
        }
    }
}

/// An image is kept as it was shipped, under its id: as wide, as high, and with the bytes it came
/// with, in place of one of that id; no other image is touched. One that does not have four
/// bytes to a pixel is not kept.
pub proof fn images_are_kept_as_shipped(
    images: Map<u64, RenderImageModel>,
    payloads: Seq<ImagePayload>,
    payload: ImagePayload,
    other: u64,
)
    requires
        payload.width * 4 <= usize::MAX,
    ensures
        ({
            let before = ingested(images, payloads);
            let after = ingested(images, payloads.push(payload));
            &&& payload.bytes@.len() == payload.width * payload.height * 4 ==> {
                &&& after.contains_key(payload.id)
                &&& after[payload.id].width == payload.width
                &&& after[payload.id].height == payload.height
                &&& after[payload.id].pixels == payload.bytes@
            }
            &&& payload.bytes@.len() != payload.width * payload.height * 4 ==> after == before
            &&& other != payload.id ==> after.contains_key(other) == before.contains_key(other)
                && after[other] == before[other]
        }),
        ingested(images, Seq::empty()) == images,
{
    assert(payloads.push(payload).drop_last() =~= payloads);
    assert(payload.width * payload.height * 4 >= 0) by (nonlinear_arith)
        requires
            payload.width >= 0,
            payload.height >= 0,
    ;
}

/// An image is told by its own width, height and pixels.
pub proof fn images_hold_what_they_say(image: RenderImage)
    ensures
        image@.width == image.width,
        image@.height == image.height,
        image@.pixels == image.pixels@,
{
}

} // verus!
