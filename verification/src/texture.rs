use vstd::prelude::*;
use bevy::render::texture::Image;
use bevy::render::render_resource::{Extent3d, TextureDimension, TextureFormat};

verus! {

/// One RGBA pixel, a byte per channel.
pub type Rgba = [u8; 4];

/// The bytes of a texture row: the pixels one after another, each as its
/// four channels in order.
pub open spec fn row_bytes(pixels: Seq<Rgba>) -> Seq<u8>
    decreases pixels.len(),
{
    if pixels.len() == 0 {
        Seq::empty()
    } else {
        row_bytes(pixels.drop_last()) + pixels.last()@
    }
}

/// Byte `4 * i + c` of the row is channel `c` of pixel `i`.
pub proof fn lemma_row_bytes_index(pixels: Seq<Rgba>)
    ensures
        row_bytes(pixels).len() == 4 * pixels.len(),
        forall|i: int, c: int|
            0 <= i < pixels.len() && 0 <= c < 4 ==> #[trigger] row_bytes(pixels)[4 * i + c]
                == pixels[i][c],
    decreases pixels.len(),
{
    if pixels.len() > 0 {
        let init = pixels.drop_last();
        lemma_row_bytes_index(init);
        assert forall|i: int, c: int| 0 <= i < pixels.len() && 0 <= c < 4 implies #[trigger] row_bytes(
            pixels,
        )[4 * i + c] == pixels[i][c] by {
            if i < init.len() {
                assert(init[i] == pixels[i]);
            }
        }
    }
}

/// Lays the pixels out as the byte data of a texture one pixel high.
pub fn texture_data(pixels: &[Rgba]) -> (data: Vec<u8>)
    requires
        4 * pixels@.len() <= usize::MAX,
    ensures
        data@ == row_bytes(pixels@),
        data@.len() == 4 * pixels@.len(),
        forall|i: int, c: int|
            0 <= i < pixels@.len() && 0 <= c < 4 ==> data@[4 * i + c] == pixels@[i][c],
{
    let mut data: Vec<u8> = Vec::new();
    let mut i: usize = 0;
    while i < pixels.len()
        invariant
            i <= pixels@.len(),
            data@ == row_bytes(pixels@.take(i as int)),
        decreases pixels@.len() - i,
    {
        let px = pixels[i];
        data.push(px[0]);
        data.push(px[1]);
        data.push(px[2]);
        data.push(px[3]);
        proof {
            let pre = pixels@.take(i as int);
            let next = pixels@.take(i + 1);
            assert(next.drop_last() == pre);
            assert(next.last() == px);
        }
        i = i + 1;
    }
    proof {
        assert(pixels@.take(pixels@.len() as int) == pixels@);
        lemma_row_bytes_index(pixels@);
    }
    data
}


#[verifier::external_type_specification]
#[verifier::external_body]
pub struct ExImage(Image);

/// The pixel bytes that a bevy image holds.
pub uninterp spec fn image_bytes(image: Image) -> Seq<u8>;

/// The width in pixels of a bevy image.
pub uninterp spec fn image_width(image: Image) -> u32;

/// The height in pixels of a bevy image.
pub uninterp spec fn image_height(image: Image) -> u32;

/// The depth (or number of array layers) of a bevy image.
pub uninterp spec fn image_depth(image: Image) -> u32;

/// A bevy image is a two-dimensional texture.
pub uninterp spec fn image_is_2d(image: Image) -> bool;

/// The pixels of a bevy image are in the RGBA8 sRGB format
/// (`TextureFormat::Rgba8UnormSrgb`), four bytes each.
pub uninterp spec fn image_is_rgba8_srgb(image: Image) -> bool;

/// Calls `bevy::render::texture::Image::new` for a 2D sRGB RGBA8 texture
/// `width` pixels wide and one pixel high. As its source shows, the image
/// keeps `data` as its bytes and the size, dimension and format it is given;
/// its other settings (sampler, usage, mip levels) are bevy's defaults and
/// are not stated. `Image::new` asserts (in debug builds) that the data holds
/// four bytes for each pixel, which `requires` asks for.
#[verifier::external_body]
fn rgba_row_image(width: u32, data: Vec<u8>) -> (image: Image)
    requires
        data@.len() == 4 * width,
    ensures
        image_bytes(image) == data@,
        image_width(image) == width,
        image_height(image) == 1,
        image_depth(image) == 1,
        image_is_2d(image),
        image_is_rgba8_srgb(image),
{
    Image::new(
        Extent3d { width, height: 1, depth_or_array_layers: 1 },
        TextureDimension::D2,
        data,
        TextureFormat::Rgba8UnormSrgb,
    )
}

/// A 2D RGBA8 sRGB texture one pixel high whose pixels, left to right, are
/// `pixels`.
pub fn color_row_image(pixels: &[Rgba]) -> (image: Image)
    requires
        pixels@.len() <= u32::MAX,
        4 * pixels@.len() <= usize::MAX,
    ensures
        image_bytes(image) == row_bytes(pixels@),
        image_width(image) == pixels@.len(),
        image_height(image) == 1,
        image_depth(image) == 1,
        image_is_2d(image),
        image_is_rgba8_srgb(image),
{
    let data = texture_data(pixels);
    rgba_row_image(pixels.len() as u32, data)
}

} // verus!
