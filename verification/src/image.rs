//! The output raster: a grid of eight-bit RGB pixels that the render workers
//! fill one pixel at a time and the encoder turns into a PNG byte stream.

use vstd::prelude::*;

verus! {

/// A `width` x `height` raster of eight-bit RGB pixels, stored row-major with
/// three bytes per pixel and the first row at the top of the picture.
#[derive(Debug)]
pub struct Image {
    pub width: u32,
    pub height: u32,
    pub pixels: Vec<u8>,
}

impl Image {
    /// A well-formed raster holds exactly three bytes per pixel.
    pub open spec fn wf(self) -> bool {
        self.pixels@.len() == (self.width as int) * (self.height as int) * 3
    }

    /// Byte offset of the red channel of the pixel in column `x` of row `y`.
    pub open spec fn pixel_offset(self, x: int, y: int) -> int {
        (y * (self.width as int) + x) * 3
    }

    /// The channel bytes `(red, green, blue)` of the pixel in column `x` of
    /// row `y`.
    pub open spec fn pixel(self, x: int, y: int) -> (u8, u8, u8) {
        (
            self.pixels@[self.pixel_offset(x, y)],
            self.pixels@[self.pixel_offset(x, y) + 1],
            self.pixels@[self.pixel_offset(x, y) + 2],
        )
    }

    /// The pixel data after the pixel in column `x` of row `y` is set to the
    /// channel bytes `(r, g, b)`.
    pub open spec fn raster_with_pixel(
        pixels: Seq<u8>,
        width: int,
        x: int,
        y: int,
        r: u8,
        g: u8,
        b: u8,
    ) -> Seq<u8> {
        pixels.update((y * width + x) * 3, r).update((y * width + x) * 3 + 1, g).update(
            (y * width + x) * 3 + 2,
            b,
        )
    }

    /// A fresh all-black raster of the given dimensions.
    pub fn new(width: u32, height: u32) -> (img: Image)
        requires
            (width as int) * (height as int) * 3 <= usize::MAX as int,
        ensures
            img.wf(),
            img.width == width,
            img.height == height,
            forall|i: int| 0 <= i < img.pixels@.len() ==> img.pixels@[i] == 0u8,
    {
        let n: usize = (width as usize) * (height as usize) * 3;
        let mut pixels: Vec<u8> = Vec::new();
        while pixels.len() < n
            invariant
                pixels@.len() <= n,
                forall|i: int| 0 <= i < pixels@.len() ==> pixels@[i] == 0u8,
            decreases n - pixels@.len(),
        {
            pixels.push(0u8);
        }
        Image { width, height, pixels }
    }

    /// Store the channel bytes of the pixel in column `x` of row `y`; every
    /// other pixel keeps its value.
    pub fn set_pixel(&mut self, x: u32, y: u32, r: u8, g: u8, b: u8)
        requires
            old(self).wf(),
            x < old(self).width,
            y < old(self).height,
        ensures
            final(self).wf(),
            final(self).width == old(self).width,
            final(self).height == old(self).height,
            final(self).pixel(x as int, y as int) == (r, g, b),
            forall|i: int, j: int|
                0 <= i < old(self).width && 0 <= j < old(self).height && (i, j) != (x as int, y as int)
                    ==> final(self).pixel(i, j) == old(self).pixel(i, j),
            final(self).pixels@ == Image::raster_with_pixel(
                old(self).pixels@,
                old(self).width as int,
                x as int,
                y as int,
                r,
                g,
                b,
            ),
    {
        proof {
            assert(self.pixels@.len() <= usize::MAX) by {
                assert(self.pixels.len() == self.pixels@.len());
            }
            lemma_pixel_offset_in_bounds(
                x as int,
                y as int,
                self.width as int,
                self.height as int,
            );
        }
        let offset: usize = ((y as usize) * (self.width as usize) + (x as usize)) * 3;
        self.pixels[offset] = r;
        self.pixels[offset + 1] = g;
        self.pixels[offset + 2] = b;
        proof {
            assert forall|i: int, j: int|
                0 <= i < old(self).width && 0 <= j < old(self).height && (i, j) != (x as int, y as int)
                    implies final(self).pixel(i, j) == old(self).pixel(i, j) by {
                lemma_pixel_offset_in_bounds(i, j, self.width as int, self.height as int);
                lemma_pixel_offset_injective(i, j, x as int, y as int, self.width as int);
            }
        }
    }

    /// Read back the channel bytes of the pixel in column `x` of row `y`.
    pub fn get_pixel(&self, x: u32, y: u32) -> (rgb: (u8, u8, u8))
        requires
            self.wf(),
            x < self.width,
            y < self.height,
        ensures
            rgb == self.pixel(x as int, y as int),
    {
        proof {
            assert(self.pixels@.len() <= usize::MAX) by {
                assert(self.pixels.len() == self.pixels@.len());
            }
            lemma_pixel_offset_in_bounds(
                x as int,
                y as int,
                self.width as int,
                self.height as int,
            );
        }
        let offset: usize = ((y as usize) * (self.width as usize) + (x as usize)) * 3;
        (self.pixels[offset], self.pixels[offset + 1], self.pixels[offset + 2])
    }

    /// Encode the raster as a PNG byte stream, ready to be written out by the
    /// caller; `None` exactly when the image is zero-sized, which the encoder
    /// rejects.
    pub fn encode_png(&self) -> (r: Option<Vec<u8>>)
        requires
            self.wf(),
        ensures
            r matches Some(bytes) ==> bytes@ == png_stream(
                self.width,
                self.height,
                self.pixels@,
            ),
            (r is Some) <==> (self.width > 0 && self.height > 0),
    {
        png_encode_rgb8(self.width, self.height, &self.pixels)
    }
}

/// The PNG byte stream that encodes a raster of the given dimensions with the
/// given row-major eight-bit RGB pixel data.
pub uninterp spec fn png_stream(width: u32, height: u32, pixels: Seq<u8>) -> Seq<u8>;

/// Relies on png::Encoder with eight-bit RGB color: the stream it writes is a
/// deterministic function of the dimensions and the pixel bytes alone; it
/// encodes any buffer of exactly three bytes per pixel and rejects exactly the
/// zero-sized dimensions.
#[verifier::external_body]
fn png_encode_rgb8(width: u32, height: u32, pixels: &Vec<u8>) -> (r: Option<Vec<u8>>)
    requires
        pixels@.len() == (width as int) * (height as int) * 3,
    ensures
        r matches Some(bytes) ==> bytes@ == png_stream(width, height, pixels@),
        (r is Some) <==> (width > 0 && height > 0),
{
    let mut out: Vec<u8> = Vec::new();
    let mut encoder = png::Encoder::new(&mut out, width, height);
    encoder.set_color(png::ColorType::Rgb);
    encoder.set_depth(png::BitDepth::Eight);
    let mut writer = match encoder.write_header() {
        Ok(writer) => writer,
        Err(_) => return None,
    };
    if writer.write_image_data(pixels.as_slice()).is_err() {
        return None;
    }
    if writer.finish().is_err() {
        return None;
    }
    Some(out)
}

/// The red-channel offset of a pixel inside the raster leaves room for all
/// three channel bytes.
proof fn lemma_pixel_offset_in_bounds(x: int, y: int, width: int, height: int)
    requires
        0 <= x < width,
        0 <= y < height,
    ensures
        0 <= y * width,
        0 <= (y * width + x) * 3,
        (y * width + x) * 3 + 3 <= width * height * 3,
{
    assert(0 <= y * width && y * width + x + 1 <= width * height) by (nonlinear_arith)
        requires
            0 <= x < width,
            0 <= y < height,
    ;
}

/// Distinct pixel coordinates occupy disjoint byte ranges: the row-major
/// offset map is injective over one row's worth of columns.
proof fn lemma_pixel_offset_injective(i: int, j: int, x: int, y: int, width: int)
    requires
        0 <= i < width,
        0 <= x < width,
        0 <= j,
        0 <= y,
        (i, j) != (x, y),
    ensures
        j * width + i != y * width + x,
{
    assert(j * width + i != y * width + x) by (nonlinear_arith)
        requires
            0 <= i < width,
            0 <= x < width,
            0 <= j,
            0 <= y,
            !(i == x && j == y),
    ;
}

/// Writes to two distinct pixels commute: the finished raster does not depend
/// on the order in which the render workers deliver their pixels.
pub proof fn lemma_pixel_writes_commute(
    pixels: Seq<u8>,
    width: int,
    height: int,
    x1: int,
    y1: int,
    r1: u8,
    g1: u8,
    b1: u8,
    x2: int,
    y2: int,
    r2: u8,
    g2: u8,
    b2: u8,
)
    requires
        pixels.len() == width * height * 3,
        0 <= x1 < width,
        0 <= y1 < height,
        0 <= x2 < width,
        0 <= y2 < height,
        (x1, y1) != (x2, y2),
    ensures
        Image::raster_with_pixel(
            Image::raster_with_pixel(pixels, width, x1, y1, r1, g1, b1),
            width,
            x2,
            y2,
            r2,
            g2,
            b2,
        ) == Image::raster_with_pixel(
            Image::raster_with_pixel(pixels, width, x2, y2, r2, g2, b2),
            width,
            x1,
            y1,
            r1,
            g1,
            b1,
        ),
{
    lemma_pixel_offset_in_bounds(x1, y1, width, height);
    lemma_pixel_offset_in_bounds(x2, y2, width, height);
    lemma_pixel_offset_injective(x1, y1, x2, y2, width);
    let one_then_two = Image::raster_with_pixel(
        Image::raster_with_pixel(pixels, width, x1, y1, r1, g1, b1),
        width,
        x2,
        y2,
        r2,
        g2,
        b2,
    );
    let two_then_one = Image::raster_with_pixel(
        Image::raster_with_pixel(pixels, width, x2, y2, r2, g2, b2),
        width,
        x1,
        y1,
        r1,
        g1,
        b1,
    );
    assert(one_then_two =~= two_then_one);
}

} // verus!
