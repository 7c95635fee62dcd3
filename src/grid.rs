use vstd::prelude::*;

use crate::settings::grid_fits;
use image::RgbaImage;

verus! {

/// An image of the image library, ready to be encoded.
#[verifier::external_body]
pub struct RgbaPicture {
    pub image: RgbaImage,
}

/// The subpixel bytes that an RGBA image holds, row-major.
pub uninterp spec fn rgba_image_bytes(img: RgbaPicture) -> Seq<u8>;

/// Width and height that an RGBA image was built with.
pub uninterp spec fn rgba_image_dimensions(img: RgbaPicture) -> (u32, u32);

/// Relies on image::ImageBuffer::from_raw: `Some` exactly when the length of
/// a row, then of the whole image, computed as `4 * width * height` with
/// checked multiplication from the left, fits in `usize` and the buffer holds
/// at least that many bytes; the image then keeps the buffer as its data and
/// the width and height it was given.
#[verifier::external_body]
fn rgba_image_from_raw(width: u32, height: u32, buf: Vec<u8>) -> (r: Option<RgbaPicture>)
    ensures
        r is Some <==> (4 * width <= usize::MAX && 4 * width * height <= buf@.len()),
        r matches Some(img) ==> rgba_image_bytes(img) == buf@ && rgba_image_dimensions(img) == (
            width,
            height,
        ),
{
    RgbaImage::from_raw(width, height, buf).map(|image| RgbaPicture { image })
}

/// An 8-bit colour, before the opaque alpha channel is added.
#[derive(Debug, Clone, Copy, PartialEq, Eq, Structural)]
pub struct Rgb8 {
    pub r: u8,
    pub g: u8,
    pub b: u8,
}

/// Byte `channel` (0 to 3) of the RGBA encoding of an opaque pixel.
pub open spec fn rgba_byte(p: Rgb8, channel: int) -> u8 {
    if channel == 0 {
        p.r
    } else if channel == 1 {
        p.g
    } else if channel == 2 {
        p.b
    } else {
        255u8
    }
}

/// Index, in row-major order, of the pixel at column `x` of row `y`.
pub open spec fn pixel_index(x: int, y: int, width: int) -> int {
    y * width + x
}

proof fn lemma_pixel_in_grid(x: int, y: int, width: int, height: int)
    requires
        0 <= x < width,
        0 <= y < height,
    ensures
        0 <= pixel_index(x, y, width) < width * height,
{
    assert(0 <= y * width + x < width * height) by (nonlinear_arith)
        requires
            0 <= x < width,
            0 <= y < height,
    ;
}

/// Column and row of the pixel with a row-major `index` in an image `width`
/// pixels wide.
pub fn pixel_position(index: usize, width: u32) -> (r: (u32, u32))
    requires
        width > 0,
        index < width * 0x1_0000_0000,
    ensures
        r.0 == (index as int) % (width as int),
        r.1 == (index as int) / (width as int),
        r.0 < width,
        pixel_index(r.0 as int, r.1 as int, width as int) == index,
{
    let w = width as usize;
    let x = index % w;
    let y = index / w;
    proof {
        assert(y < 0x1_0000_0000) by (nonlinear_arith)
            requires
                y == index / w,
                index < w * 0x1_0000_0000,
                w > 0,
        ;
        assert(y * w + x == index) by (nonlinear_arith)
            requires
                x == index % w,
                y == index / w,
                w > 0,
        ;
    }
    (x as u32, y as u32)
}

/// The output image: `width` by `height` opaque pixels, stored row-major as
/// four bytes each (red, green, blue, alpha 255).
pub struct PixelGrid {
    width: u32,
    height: u32,
    data: Vec<u8>,
}

impl PixelGrid {
    pub closed spec fn width_spec(&self) -> nat {
        self.width as nat
    }

    pub closed spec fn height_spec(&self) -> nat {
        self.height as nat
    }

    /// The bytes of the image, row-major RGBA.
    pub closed spec fn bytes(&self) -> Seq<u8> {
        self.data@
    }

    /// The pixel at column `x` of row `y`.
    pub open spec fn pixel_spec(&self, x: int, y: int) -> Rgb8 {
        let i = pixel_index(x, y, self.width_spec() as int) * 4;
        Rgb8 { r: self.bytes()[i], g: self.bytes()[i + 1], b: self.bytes()[i + 2] }
    }

    /// The grid holds four bytes per pixel, every alpha byte opaque.
    pub open spec fn wf(&self) -> bool {
        &&& grid_fits(self.width_spec(), self.height_spec())
        &&& self.bytes().len() == self.width_spec() * self.height_spec() * 4
        &&& forall|i: int| 0 <= i < self.bytes().len() && i % 4 == 3 ==> #[trigger] self.bytes()[i] == 255u8
    }

    /// A grid of opaque black pixels.
    pub fn new(width: u32, height: u32) -> (r: PixelGrid)
        requires
            grid_fits(width as nat, height as nat),
        ensures
            r.wf(),
            r.width_spec() == width,
            r.height_spec() == height,
            forall|i: int| 0 <= i < r.bytes().len() ==> #[trigger] r.bytes()[i] == rgba_byte(
                Rgb8 { r: 0, g: 0, b: 0 },
                i % 4,
            ),
            forall|x: int, y: int|
                0 <= x < width && 0 <= y < height ==> #[trigger] r.pixel_spec(x, y) == (Rgb8 {
                    r: 0,
                    g: 0,
                    b: 0,
                }),
    {
        proof {
            assert(width * height <= width * height * 4) by (nonlinear_arith);
        }
        let n = (width as usize) * (height as usize);
        let mut data: Vec<u8> = Vec::new();
        let mut k: usize = 0;
        while k < n
            invariant
                n == width * height,
                n * 4 <= usize::MAX,
                k <= n,
                data@.len() == k * 4,
                forall|i: int| 0 <= i < data@.len() ==> #[trigger] data@[i] == rgba_byte(
                    Rgb8 { r: 0, g: 0, b: 0 },
                    i % 4,
                ),
            decreases n - k,
        {
            data.push(0);
            data.push(0);
            data.push(0);
            data.push(255);
            k = k + 1;
        }
        let r = PixelGrid { width, height, data };
        proof {
            assert forall|x: int, y: int|
                0 <= x < width && 0 <= y < height implies #[trigger] r.pixel_spec(x, y) == (Rgb8 {
                    r: 0,
                    g: 0,
                    b: 0,
                }) by {
                let p = pixel_index(x, y, width as int);
                lemma_pixel_in_grid(x, y, width as int, height as int);
                assert((p * 4) % 4 == 0);
                assert((p * 4 + 1) % 4 == 1);
                assert((p * 4 + 2) % 4 == 2);
            }
        }
        r
    }

    /// Builds the grid from the colours of its pixels, given row-major.
    pub fn from_pixels(width: u32, height: u32, pixels: &Vec<Rgb8>) -> (r: PixelGrid)
        requires
            grid_fits(width as nat, height as nat),
            pixels@.len() == width * height,
        ensures
            r.wf(),
            r.width_spec() == width,
            r.height_spec() == height,
            forall|i: int| 0 <= i < r.bytes().len() ==> #[trigger] r.bytes()[i] == rgba_byte(
                pixels@[i / 4],
                i % 4,
            ),
            forall|x: int, y: int|
                0 <= x < width && 0 <= y < height ==> #[trigger] r.pixel_spec(x, y)
                    == pixels@[pixel_index(x, y, width as int)],
    {
        proof {
            assert(width * height <= width * height * 4) by (nonlinear_arith);
        }
        let n = pixels.len();
        let mut data: Vec<u8> = Vec::new();
        let mut k: usize = 0;
        while k < n
            invariant
                n == pixels@.len(),
                n * 4 <= usize::MAX,
                k <= n,
                data@.len() == k * 4,
                forall|i: int| 0 <= i < data@.len() ==> #[trigger] data@[i] == rgba_byte(
                    pixels@[i / 4],
                    i % 4,
                ),
            decreases n - k,
        {
            let p = pixels[k];
            data.push(p.r);
            data.push(p.g);
            data.push(p.b);
            data.push(255);
            k = k + 1;
        }
        let r = PixelGrid { width, height, data };
        proof {
            assert forall|x: int, y: int|
                0 <= x < width && 0 <= y < height implies #[trigger] r.pixel_spec(x, y)
                    == pixels@[pixel_index(x, y, width as int)] by {
                let p = pixel_index(x, y, width as int);
                lemma_pixel_in_grid(x, y, width as int, height as int);
                assert((p * 4) / 4 == p && (p * 4) % 4 == 0);
                assert((p * 4 + 1) / 4 == p && (p * 4 + 1) % 4 == 1);
                assert((p * 4 + 2) / 4 == p && (p * 4 + 2) % 4 == 2);
            }
        }
        r
    }

    pub fn width(&self) -> (r: u32)
        ensures
            r == self.width_spec(),
    {
        self.width
    }

    pub fn height(&self) -> (r: u32)
        ensures
            r == self.height_spec(),
    {
        self.height
    }

    /// The colour of the pixel at column `x` of row `y`.
    pub fn pixel(&self, x: u32, y: u32) -> (r: Rgb8)
        requires
            self.wf(),
            x < self.width_spec(),
            y < self.height_spec(),
        ensures
            r == self.pixel_spec(x as int, y as int),
    {
        let i = self.offset(x, y);
        Rgb8 { r: self.data[i], g: self.data[i + 1], b: self.data[i + 2] }
    }

    /// Paints the pixel at column `x` of row `y`; every other byte stays.
    pub fn set_pixel(&mut self, x: u32, y: u32, color: Rgb8)
        requires
            old(self).wf(),
            x < old(self).width_spec(),
            y < old(self).height_spec(),
        ensures
            final(self).wf(),
            final(self).width_spec() == old(self).width_spec(),
            final(self).height_spec() == old(self).height_spec(),
            final(self).pixel_spec(x as int, y as int) == color,
            forall|i: int|
                0 <= i < final(self).bytes().len() && i / 4 != pixel_index(
                    x as int,
                    y as int,
                    old(self).width_spec() as int,
                ) ==> #[trigger] final(self).bytes()[i] == old(self).bytes()[i],
    {
        let i = self.offset(x, y);
        self.data.set(i, color.r);
        self.data.set(i + 1, color.g);
        self.data.set(i + 2, color.b);
        proof {
            assert forall|j: int|
                0 <= j < self.bytes().len() && j % 4 == 3 implies #[trigger] self.bytes()[j]
                == 255u8 by {
                if i <= j < i + 3 {
                    assert(j % 4 != 3);
                } else {
                    assert(self.data@[j] == old(self).data@[j]);
                }
            }
        }
    }

    /// The row-major RGBA bytes of the image.
    pub fn into_bytes(self) -> (r: Vec<u8>)
        ensures
            r@ == self.bytes(),
    {
        self.data
    }

    /// Hands the grid to the image library, bytes unchanged.
    pub fn into_image(self) -> (r: RgbaPicture)
        requires
            self.wf(),
        ensures
            rgba_image_bytes(r) == self.bytes(),
            rgba_image_dimensions(r) == (self.width_spec() as u32, self.height_spec() as u32),
    {
        let width = self.width;
        let height = self.height;
        proof {
            let (w, h) = (width as int, height as int);
            assert(4 * w * h == w * h * 4 && 4 * w == w * 4) by (nonlinear_arith);
        }
        let img = rgba_image_from_raw(width, height, self.data);
        img.unwrap()
    }

    fn offset(&self, x: u32, y: u32) -> (r: usize)
        requires
            self.wf(),
            x < self.width_spec(),
            y < self.height_spec(),
        ensures
            r == pixel_index(x as int, y as int, self.width_spec() as int) * 4,
            r + 3 < self.bytes().len(),
            r % 4 == 0,
    {
        let w = self.width as usize;
        let h = self.height as usize;
        let xu = x as usize;
        let yu = y as usize;
        proof {
            assert((yu * w + xu) * 4 + 3 < w * h * 4) by (nonlinear_arith)
                requires
                    xu < w,
                    yu < h,
            ;
        }
        (yu * w + xu) * 4
    }
}

} // verus!
