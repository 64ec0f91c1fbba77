use vstd::prelude::*;
use crate::cell::ONE;

verus! {

/// What the `image` crate's PNG decoder makes of the encoded bytes, as 8-bit
/// RGBA: width, height and row-major bytes, or nothing where the bytes do not
/// decode as PNG.
pub uninterp spec fn png_rgba(encoded: Seq<u8>) -> Option<(u32, u32, Seq<u8>)>;

/// Relies on `image::load_from_memory_with_format` with the format fixed to PNG
/// (the built-in decoder; no format guessing) and on `DynamicImage::to_rgba8`,
/// whose buffer holds exactly four bytes per pixel.
#[verifier::external_body]
fn decode_png_rgba(encoded: &[u8]) -> (r: Option<(u32, u32, Vec<u8>)>)
    ensures
        r is None <==> png_rgba(encoded@) is None,
        r matches Some(t) ==> png_rgba(encoded@) == Some((t.0, t.1, t.2@)) && t.2@.len() == 4
            * t.0 * t.1,
{
    match image::load_from_memory_with_format(encoded, image::ImageFormat::Png) {
        Ok(img) => {
            let rgba = img.to_rgba8();
            let (width, height) = rgba.dimensions();
            Some((width, height, rgba.into_raw()))
        },
        Err(_) => None,
    }
}

/// Why an image could not be loaded.
#[derive(Clone, Copy, Debug, PartialEq, Eq)]
pub enum ImageLoadError {
    /// The bytes are not a PNG image that decodes.
    Decode,
}

/// An 8-bit RGBA image, four bytes per pixel, rows top to bottom.
pub struct RgbaImage {
    width: u32,
    height: u32,
    pixels: Vec<u8>,
}

impl RgbaImage {
    /// The image's width.
    pub closed spec fn spec_width(&self) -> nat {
        self.width as nat
    }

    /// The image's height.
    pub closed spec fn spec_height(&self) -> nat {
        self.height as nat
    }

    /// The image's bytes, `[r, g, b, a]` for each pixel in row-major order.
    pub closed spec fn spec_pixels(&self) -> Seq<u8> {
        self.pixels@
    }

    /// The buffer holds exactly four bytes per pixel.
    pub open spec fn wf(&self) -> bool {
        self.spec_pixels().len() == 4 * self.spec_width() * self.spec_height()
    }

    /// An image over a raw RGBA buffer, if the buffer has exactly four bytes per pixel.
    pub fn from_raw(width: u32, height: u32, pixels: Vec<u8>) -> (r: Option<RgbaImage>)
        ensures
            r matches Some(img) ==> img.wf() && img.spec_width() == width && img.spec_height()
                == height && img.spec_pixels() == pixels@,
            r is None <==> pixels@.len() != 4 * width * height,
    {
        let len = pixels.len();
        let expected = match (width as usize).checked_mul(height as usize) {
            Some(area) => area.checked_mul(4),
            None => None,
        };
        proof {
            let (w, h) = (width as int, height as int);
            assert(4 * w * h == 4 * (w * h) && w * h >= 0) by (nonlinear_arith)
                requires w >= 0, h >= 0;
        }
        match expected {
            Some(bytes) => if len == bytes {
                Some(RgbaImage { width, height, pixels })
            } else {
                None
            },
            None => None,
        }
    }

    /// The dimensions `(width, height)`.
    pub fn dimensions(&self) -> (r: (u32, u32))
        ensures
            r.0 == self.spec_width(),
            r.1 == self.spec_height(),
    {
        (self.width, self.height)
    }

    /// The raw RGBA bytes.
    pub fn as_raw(&self) -> (r: &Vec<u8>)
        ensures
            r@ == self.spec_pixels(),
    {
        &self.pixels
    }
}

/// Decodes a PNG image into 8-bit RGBA.
pub fn get_image(encoded: &[u8]) -> (r: Result<RgbaImage, ImageLoadError>)
    ensures
        match r {
            Ok(img) => img.wf() && png_rgba(encoded@) == Some(
                (img.spec_width() as u32, img.spec_height() as u32, img.spec_pixels()),
            ),
            Err(ImageLoadError::Decode) => png_rgba(encoded@) is None,
        },
{
    match decode_png_rgba(encoded) {
        Some((width, height, pixels)) => match RgbaImage::from_raw(width, height, pixels) {
            Some(img) => Ok(img),
            None => Err(ImageLoadError::Decode),
        },
        None => Err(ImageLoadError::Decode),
    }
}

/// The fixed-point lightness of a pixel whose red channel is `red`: `red / 255`.
pub open spec fn lightness(red: u8) -> int {
    red * ONE / 255
}

/// The lightness of every pixel of `img`, row-major, with the image's dimensions.
pub fn get_image_of_cells(img: &RgbaImage) -> (r: (Vec<i32>, (usize, usize)))
    requires
        img.wf(),
    ensures
        r.1.0 == img.spec_width(),
        r.1.1 == img.spec_height(),
        r.0@.len() == img.spec_width() * img.spec_height(),
        forall|i: int|
            0 <= i < r.0@.len() ==> #[trigger] r.0@[i] == lightness(img.spec_pixels()[4 * i]),
{
    let len = img.pixels.len();
    let n = len / 4;
    proof {
        let (w, h) = (img.spec_width() as int, img.spec_height() as int);
        assert(4 * w * h == 4 * (w * h)) by (nonlinear_arith);
    }
    let mut cells: Vec<i32> = Vec::new();
    let mut i: usize = 0;
    while i < n
        invariant
            img.wf(),
            len == img.spec_pixels().len(),
            n == len / 4,
            i <= n,
            cells@.len() == i,
            forall|j: int|
                0 <= j < i ==> #[trigger] cells@[j] == lightness(img.spec_pixels()[4 * j]),
        decreases n - i,
    {
        assert(4 * i + 3 < img.spec_pixels().len());
        let red = img.pixels[4 * i];
        assert(red as int * ONE / 255 <= ONE) by (nonlinear_arith)
            requires red <= 255;
        cells.push(((red as u64 * ONE as u64) / 255) as i32);
        i = i + 1;
    }
    (cells, (img.width as usize, img.height as usize))
}

} // verus!
