//! Images held in memory: colors row by row, the coverage map of a font, and
//! the patches by which a texture is changed.
//!
//! A pixel of a color image is four bytes, red, green, blue and alpha, with
//! the color channels already multiplied by alpha.

use std::sync::Arc;
use vstd::prelude::*;
use vstd::std_specs::convert::IntoSpec;
use vstd::string::StringExecFns;
use crate::radix::append_digits;
use crate::radix::digits;

verus! {

/// The part `val * frac / 255` of a color channel, rounded to the nearest
/// byte without a division.
pub open spec fn scaled_channel(val: u8, frac: u8) -> u8 {
    let p = val * frac + 128;
    ((p + p / 256) / 256) as u8
}

/// A color with separate alpha as one with premultiplied alpha: fully
/// transparent is all zeros, opaque keeps its channels, and in between each
/// channel is scaled by alpha.
pub open spec fn premultiplied(r: u8, g: u8, b: u8, a: u8) -> [u8; 4] {
    if a == 0 {
        [0u8, 0u8, 0u8, 0u8]
    } else if a == 255 {
        [r, g, b, 255u8]
    } else {
        [scaled_channel(r, a), scaled_channel(g, a), scaled_channel(b, a), a]
    }
}

/// The bytes of pixels one after the other.
pub open spec fn flattened(pixels: Seq<[u8; 4]>) -> Seq<u8> {
    Seq::new(4 * pixels.len(), |i: int| pixels[i / 4][i % 4])
}

/// `ecolor::Color32::from_rgba_unmultiplied`, taken as its four bytes:
/// the color with premultiplied alpha.
#[verifier::external_body]
fn color_from_rgba_unmultiplied(r: u8, g: u8, b: u8, a: u8) -> (c: [u8; 4])
    ensures
        c == premultiplied(r, g, b, a),
{
    ecolor::Color32::from_rgba_unmultiplied(r, g, b, a).to_array()
}

/// `ecolor::Color32::from_rgba_premultiplied`, taken as its four bytes: the
/// four bytes given.
#[verifier::external_body]
fn color_from_rgba_premultiplied(r: u8, g: u8, b: u8, a: u8) -> (c: [u8; 4])
    ensures
        c == [r, g, b, a],
{
    ecolor::Color32::from_rgba_premultiplied(r, g, b, a).to_array()
}

/// `ecolor::Color32::from_gray`, taken as its four bytes: an opaque gray.
#[verifier::external_body]
fn color_from_gray(l: u8) -> (c: [u8; 4])
    ensures
        c == [l, l, l, 255u8],
{
    ecolor::Color32::from_gray(l).to_array()
}

/// `ecolor::Color32::from_rgb`, taken as its four bytes: an opaque color.
#[verifier::external_body]
fn color_from_rgb(r: u8, g: u8, b: u8) -> (c: [u8; 4])
    ensures
        c == [r, g, b, 255u8],
{
    ecolor::Color32::from_rgb(r, g, b).to_array()
}

/// `bytemuck::cast_slice` from pixels to bytes: the same memory, read byte
/// by byte.
#[verifier::external_body]
fn bytes_of_pixels(pixels: &[[u8; 4]]) -> (bytes: &[u8])
    ensures
        bytes@ == flattened(pixels@),
{
    bytemuck::cast_slice(pixels)
}

/// `bytemuck::cast_slice_mut` from pixels to bytes: the same memory, read
/// and written byte by byte, so that what is written to the bytes is what
/// the pixels then hold.
#[verifier::external_body]
fn bytes_of_pixels_mut(pixels: &mut [[u8; 4]]) -> (bytes: &mut [u8])
    ensures
        bytes@ == flattened(old(pixels)@),
        final(bytes)@ == flattened(final(pixels)@),
        final(pixels)@.len() == old(pixels)@.len(),
{
    bytemuck::cast_slice_mut(pixels)
}

/// A place inside a grid lies inside its pixels.
pub proof fn lemma_index_in_grid(x: int, y: int, width: int, height: int)
    requires
        0 <= x < width,
        0 <= y < height,
    ensures
        0 <= y * width + x < width * height,
{
    assert(y * width + x < width * height) by (nonlinear_arith)
        requires
            0 <= x < width,
            0 <= y < height,
    ;
    assert(0 <= y * width) by (nonlinear_arith)
        requires
            0 <= y,
            0 <= width,
    ;
}

/// A 2D RGBA color image in RAM.
#[derive(Clone, Debug, PartialEq, Eq)]
pub struct ColorImage {
    /// width, height in texels.
    pub size: [usize; 2],
    /// The size of the picture that the image was made from, if it is not
    /// the size in texels: the bits of two binary32 numbers.
    pub source_size: Option<[u32; 2]>,
    /// The pixels, row by row, from top to bottom.
    pub pixels: Vec<[u8; 4]>,
}

impl Default for ColorImage {
    /// The image without a pixel.
    fn default() -> (r: ColorImage)
        ensures
            r.wf(),
            r.size == [0usize, 0usize],
            r.source_size.is_none(),
            r.pixels@.len() == 0,
    {
        ColorImage { size: [0, 0], source_size: None, pixels: Vec::new() }
    }
}

impl ColorImage {
    /// There is one pixel for each place.
    pub open spec fn wf(&self) -> bool {
        self.size[0] * self.size[1] == self.pixels@.len()
    }

    /// The pixel in column `x` of row `y`.
    pub open spec fn at(&self, x: int, y: int) -> [u8; 4] {
        self.pixels@[y * self.size[0] + x]
    }

    /// An image of the pixels given, row by row.
    pub fn new(size: [usize; 2], pixels: Vec<[u8; 4]>) -> (r: ColorImage)
        requires
            size[0] * size[1] == pixels@.len(),
        ensures
            r.wf(),
            r.size == size,
            r.pixels == pixels,
            r.source_size.is_none(),
    {
        ColorImage { size, source_size: None, pixels }
    }

    /// An image filled with one color.
    pub fn filled(size: [usize; 2], color: [u8; 4]) -> (r: ColorImage)
        requires
            size[0] * size[1] <= usize::MAX,
        ensures
            r.wf(),
            r.size == size,
            r.source_size.is_none(),
            r.pixels@ == Seq::new((size[0] * size[1]) as nat, |i: int| color),
    {
        let count: usize = size[0] * size[1];
        let mut pixels: Vec<[u8; 4]> = Vec::new();
        let mut i: usize = 0;
        while i < count
            invariant
                i <= count,
                pixels@ == Seq::new(i as nat, |j: int| color),
            decreases count - i,
        {
            pixels.push(color);
            i = i + 1;
            assert(pixels@ =~= Seq::new(i as nat, |j: int| color));
        }
        ColorImage { size, source_size: None, pixels }
    }

    /// An image from flat RGBA data with separate alpha, four bytes a pixel.
    pub fn from_rgba_unmultiplied(size: [usize; 2], rgba: &[u8]) -> (r: ColorImage)
        requires
            size[0] * size[1] * 4 == rgba@.len(),
        ensures
            r.wf(),
            r.size == size,
            r.source_size.is_none(),
            r.pixels@ == Seq::new(
                (size[0] * size[1]) as nat,
                |i: int| premultiplied(rgba@[4 * i], rgba@[4 * i + 1], rgba@[4 * i + 2], rgba@[4 * i + 3]),
            ),
    {
        let count: usize = rgba.len() / 4;
        let mut pixels: Vec<[u8; 4]> = Vec::new();
        let mut i: usize = 0;
        while i < count
            invariant
                i <= count,
                count * 4 == rgba@.len(),
                rgba@.len() <= usize::MAX,
                pixels@ == Seq::new(
                    i as nat,
                    |j: int|
                        premultiplied(
                            rgba@[4 * j],
                            rgba@[4 * j + 1],
                            rgba@[4 * j + 2],
                            rgba@[4 * j + 3],
                        ),
                ),
            decreases count - i,
        {
            let color = color_from_rgba_unmultiplied(
                rgba[4 * i],
                rgba[4 * i + 1],
                rgba[4 * i + 2],
                rgba[4 * i + 3],
            );
            pixels.push(color);
            i = i + 1;
            assert(pixels@ =~= Seq::new(
                i as nat,
                |j: int|
                    premultiplied(rgba@[4 * j], rgba@[4 * j + 1], rgba@[4 * j + 2], rgba@[4 * j + 3]),
            ));
        }
        ColorImage { size, source_size: None, pixels }
    }

    /// An image from flat RGBA data with premultiplied alpha, four bytes a
    /// pixel.
    pub fn from_rgba_premultiplied(size: [usize; 2], rgba: &[u8]) -> (r: ColorImage)
        requires
            size[0] * size[1] * 4 == rgba@.len(),
        ensures
            r.wf(),
            r.size == size,
            r.source_size.is_none(),
            r.pixels@ == Seq::new(
                (size[0] * size[1]) as nat,
                |i: int| [rgba@[4 * i], rgba@[4 * i + 1], rgba@[4 * i + 2], rgba@[4 * i + 3]],
            ),
    {
        let count: usize = rgba.len() / 4;
        let mut pixels: Vec<[u8; 4]> = Vec::new();
        let mut i: usize = 0;
        while i < count
            invariant
                i <= count,
                count * 4 == rgba@.len(),
                rgba@.len() <= usize::MAX,
                pixels@ == Seq::new(
                    i as nat,
                    |j: int| [rgba@[4 * j], rgba@[4 * j + 1], rgba@[4 * j + 2], rgba@[4 * j + 3]],
                ),
            decreases count - i,
        {
            let color = color_from_rgba_premultiplied(
                rgba[4 * i],
                rgba[4 * i + 1],
                rgba[4 * i + 2],
                rgba[4 * i + 3],
            );
            pixels.push(color);
            i = i + 1;
            assert(pixels@ =~= Seq::new(
                i as nat,
                |j: int| [rgba@[4 * j], rgba@[4 * j + 1], rgba@[4 * j + 2], rgba@[4 * j + 3]],
            ));
        }
        ColorImage { size, source_size: None, pixels }
    }

    /// An image from flat opaque gray data, one byte a pixel.
    pub fn from_gray(size: [usize; 2], gray: &[u8]) -> (r: ColorImage)
        requires
            size[0] * size[1] == gray@.len(),
        ensures
            r.wf(),
            r.size == size,
            r.source_size.is_none(),
            r.pixels@ == Seq::new(gray@.len(), |i: int| [gray@[i], gray@[i], gray@[i], 255u8]),
    {
        let count: usize = gray.len();
        let mut pixels: Vec<[u8; 4]> = Vec::new();
        let mut i: usize = 0;
        while i < count
            invariant
                i <= count,
                count == gray@.len(),
                pixels@ == Seq::new(i as nat, |j: int| [gray@[j], gray@[j], gray@[j], 255u8]),
            decreases count - i,
        {
            let color = color_from_gray(gray[i]);
            pixels.push(color);
            i = i + 1;
            assert(pixels@ =~= Seq::new(i as nat, |j: int| [gray@[j], gray@[j], gray@[j], 255u8]));
        }
        ColorImage { size, source_size: None, pixels }
    }

    /// As [`ColorImage::from_gray`], from data that the image may keep.
    pub fn from_gray_iter(size: [usize; 2], gray: Vec<u8>) -> (r: ColorImage)
        requires
            size[0] * size[1] == gray@.len(),
        ensures
            r.wf(),
            r.size == size,
            r.source_size.is_none(),
            r.pixels@ == Seq::new(gray@.len(), |i: int| [gray@[i], gray@[i], gray@[i], 255u8]),
    {
        ColorImage::from_gray(size, gray.as_slice())
    }

    /// An image from flat opaque RGB data, three bytes a pixel.
    pub fn from_rgb(size: [usize; 2], rgb: &[u8]) -> (r: ColorImage)
        requires
            size[0] * size[1] * 3 == rgb@.len(),
        ensures
            r.wf(),
            r.size == size,
            r.source_size.is_none(),
            r.pixels@ == Seq::new(
                (size[0] * size[1]) as nat,
                |i: int| [rgb@[3 * i], rgb@[3 * i + 1], rgb@[3 * i + 2], 255u8],
            ),
    {
        let count: usize = rgb.len() / 3;
        let mut pixels: Vec<[u8; 4]> = Vec::new();
        let mut i: usize = 0;
        while i < count
            invariant
                i <= count,
                count * 3 == rgb@.len(),
                rgb@.len() <= usize::MAX,
                pixels@ == Seq::new(
                    i as nat,
                    |j: int| [rgb@[3 * j], rgb@[3 * j + 1], rgb@[3 * j + 2], 255u8],
                ),
            decreases count - i,
        {
            let color = color_from_rgb(rgb[3 * i], rgb[3 * i + 1], rgb[3 * i + 2]);
            pixels.push(color);
            i = i + 1;
            assert(pixels@ =~= Seq::new(
                i as nat,
                |j: int| [rgb@[3 * j], rgb@[3 * j + 1], rgb@[3 * j + 2], 255u8],
            ));
        }
        ColorImage { size, source_size: None, pixels }
    }

    /// The pixels as bytes, four a pixel.
    pub fn as_raw(&self) -> (r: &[u8])
        ensures
            r@ == flattened(self.pixels@),
    {
        bytes_of_pixels(self.pixels.as_slice())
    }

    /// The pixels as bytes that can be written, four a pixel.
    pub fn as_raw_mut(&mut self) -> (r: &mut [u8])
        ensures
            r@ == flattened(old(self).pixels@),
            final(r)@ == flattened(final(self).pixels@),
            final(self).pixels@.len() == old(self).pixels@.len(),
            final(self).size == old(self).size,
            final(self).source_size == old(self).source_size,
    {
        bytes_of_pixels_mut(self.pixels.as_mut_slice())
    }

    /// Sets the size of the picture that the image was made from, as the
    /// bits of two binary32 numbers.
    pub fn with_source_size(self, source_size: [u32; 2]) -> (r: ColorImage)
        ensures
            r == (ColorImage { source_size: Some(source_size), ..self }),
    {
        let mut image = self;
        image.source_size = Some(source_size);
        image
    }

    pub fn width(&self) -> (r: usize)
        ensures
            r == self.size[0],
    {
        self.size[0]
    }

    pub fn height(&self) -> (r: usize)
        ensures
            r == self.size[1],
    {
        self.size[1]
    }

    /// The image in a few words: its size and the number of its pixels, not
    /// the pixels themselves.
    pub open spec fn summarized(&self) -> Seq<char> {
        "ColorImage { size: ["@ + digits(self.size[0] as nat, 10, false) + ", "@ + digits(
            self.size[1] as nat,
            10,
            false,
        ) + "], pixel-count: "@ + digits(self.pixels@.len(), 10, false) + ", .. }"@
    }

    /// Computes [`ColorImage::summarized`].
    pub fn summary(&self) -> (r: String)
        ensures
            r@ == self.summarized(),
    {
        let mut text = String::from_str("ColorImage { size: [");
        append_digits(&mut text, self.size[0] as u64, 10, false);
        text.append(", ");
        append_digits(&mut text, self.size[1] as u64, 10, false);
        text.append("], pixel-count: ");
        append_digits(&mut text, self.pixels.len() as u64, 10, false);
        text.append(", .. }");
        assert(text@ =~= self.summarized());
        text
    }

    /// The pixel in column `x` of row `y`.
    pub fn pixel(&self, x: usize, y: usize) -> (r: [u8; 4])
        requires
            self.wf(),
            x < self.size[0],
            y < self.size[1],
        ensures
            r == self.at(x as int, y as int),
    {
        let count = self.pixels.len();
        proof {
            lemma_index_in_grid(x as int, y as int, self.size[0] as int, self.size[1] as int);
        }
        self.pixels[y * self.size[0] + x]
    }

    /// Sets the pixel in column `x` of row `y`.
    pub fn set_pixel(&mut self, x: usize, y: usize, color: [u8; 4])
        requires
            old(self).wf(),
            x < old(self).size[0],
            y < old(self).size[1],
        ensures
            final(self).wf(),
            final(self).size == old(self).size,
            final(self).source_size == old(self).source_size,
            final(self).pixels@ == old(self).pixels@.update(y * old(self).size[0] + x, color),
    {
        let count = self.pixels.len();
        proof {
            lemma_index_in_grid(x as int, y as int, self.size[0] as int, self.size[1] as int);
        }
        let index = y * self.size[0] + x;
        self.pixels[index] = color;
    }

    /// A new image from the patch of this one that spans the columns from
    /// `min_x` up to but not including `max_x` and the rows from `min_y` up
    /// to but not including `max_y`.
    pub fn region(&self, min_x: usize, max_x: usize, min_y: usize, max_y: usize) -> (r: ColorImage)
        requires
            self.wf(),
            min_x <= max_x <= self.size[0],
            min_y <= max_y <= self.size[1],
        ensures
            r.wf(),
            r.size == [(max_x - min_x) as usize, (max_y - min_y) as usize],
            r.source_size.is_none(),
            forall|x: int, y: int|
                0 <= x < max_x - min_x && 0 <= y < max_y - min_y ==> #[trigger] r.at(x, y)
                    == self.at(min_x + x, min_y + y),
    {
        let width: usize = max_x - min_x;
        let height: usize = max_y - min_y;
        let stride: usize = self.size[0];
        let count = self.pixels.len();
        let mut output: Vec<[u8; 4]> = Vec::new();
        let mut row: usize = min_y;
        assert(0 * width == 0);
        while row < max_y
            invariant
                self.wf(),
                count == self.pixels@.len(),
                stride == self.size[0],
                width == max_x - min_x,
                min_x <= max_x <= self.size[0],
                min_y <= row <= max_y <= self.size[1],
                output@.len() == (row - min_y) * width,
                forall|x: int, y: int|
                    0 <= x < width && 0 <= y < row - min_y ==> #[trigger] output@[y * width + x]
                        == self.at(min_x + x, min_y + y),
            decreases max_y - row,
        {
            let mut column: usize = min_x;
            while column < max_x
                invariant
                    self.wf(),
                    count == self.pixels@.len(),
                    stride == self.size[0],
                    width == max_x - min_x,
                    min_x <= column <= max_x <= self.size[0],
                    min_y <= row < max_y <= self.size[1],
                    output@.len() == (row - min_y) * width + (column - min_x),
                    forall|x: int, y: int|
                        0 <= x < width && 0 <= y < row - min_y ==> #[trigger] output@[y * width + x]
                            == self.at(min_x + x, min_y + y),
                    forall|x: int|
                        0 <= x < column - min_x ==> #[trigger] output@[(row - min_y) * width + x]
                            == self.at(min_x + x, row as int),
                decreases max_x - column,
            {
                proof {
                    lemma_index_in_grid(
                        column as int,
                        row as int,
                        self.size[0] as int,
                        self.size[1] as int,
                    );
                }
                let ghost before = output@;
                output.push(self.pixels[row * stride + column]);
                proof {
                    assert forall|x: int, y: int|
                        0 <= x < width && 0 <= y < row - min_y implies #[trigger] output@[y * width
                        + x] == self.at(min_x + x, min_y + y) by {
                        lemma_index_in_grid(x, y, width as int, row - min_y);
                        assert(output@[y * width + x] == before[y * width + x]);
                    }
                }
                column = column + 1;
            }
            proof {
                assert((row - min_y) * width + width == (row + 1 - min_y) * width)
                    by (nonlinear_arith);
                assert forall|x: int, y: int|
                    0 <= x < width && 0 <= y < row + 1 - min_y implies #[trigger] output@[y * width
                    + x] == self.at(min_x + x, min_y + y) by {
                    if y == row - min_y {
                    }
                }
            }
            row = row + 1;
        }
        assert(output@.len() == width * height) by (nonlinear_arith)
            requires
                output@.len() == (max_y - min_y) * width,
                height == max_y - min_y,
        ;
        ColorImage { size: [width, height], source_size: None, pixels: output }
    }
}

/// A single-channel image for the texture of a font.
///
/// Each value says how much of a texel a character covers: the bits of a
/// binary32 number between 0 and 1.
#[derive(Clone, Debug, PartialEq, Eq)]
pub struct FontImage {
    /// width, height
    pub size: [usize; 2],
    /// The coverage of each texel, row by row.
    pub pixels: Vec<u32>,
}

impl Default for FontImage {
    /// The image without a texel.
    fn default() -> (r: FontImage)
        ensures
            r.wf(),
            r.size == [0usize, 0usize],
            r.pixels@.len() == 0,
    {
        FontImage { size: [0, 0], pixels: Vec::new() }
    }
}

impl FontImage {
    /// There is one value for each place.
    pub open spec fn wf(&self) -> bool {
        self.size[0] * self.size[1] == self.pixels@.len()
    }

    /// The coverage in column `x` of row `y`.
    pub open spec fn at(&self, x: int, y: int) -> u32 {
        self.pixels@[y * self.size[0] + x]
    }

    /// An image that nothing covers: every value is the bits of zero.
    pub fn new(size: [usize; 2]) -> (r: FontImage)
        requires
            size[0] * size[1] <= usize::MAX,
        ensures
            r.wf(),
            r.size == size,
            r.pixels@ == Seq::new((size[0] * size[1]) as nat, |i: int| 0u32),
    {
        let count: usize = size[0] * size[1];
        let mut pixels: Vec<u32> = Vec::new();
        let mut i: usize = 0;
        while i < count
            invariant
                i <= count,
                pixels@ == Seq::new(i as nat, |j: int| 0u32),
            decreases count - i,
        {
            pixels.push(0);
            i = i + 1;
            assert(pixels@ =~= Seq::new(i as nat, |j: int| 0u32));
        }
        FontImage { size, pixels }
    }

    pub fn width(&self) -> (r: usize)
        ensures
            r == self.size[0],
    {
        self.size[0]
    }

    pub fn height(&self) -> (r: usize)
        ensures
            r == self.size[1],
    {
        self.size[1]
    }

    /// The coverage in column `x` of row `y`.
    pub fn pixel(&self, x: usize, y: usize) -> (r: u32)
        requires
            self.wf(),
            x < self.size[0],
            y < self.size[1],
        ensures
            r == self.at(x as int, y as int),
    {
        let count = self.pixels.len();
        proof {
            lemma_index_in_grid(x as int, y as int, self.size[0] as int, self.size[1] as int);
        }
        self.pixels[y * self.size[0] + x]
    }

    /// Sets the coverage in column `x` of row `y`.
    pub fn set_pixel(&mut self, x: usize, y: usize, coverage: u32)
        requires
            old(self).wf(),
            x < old(self).size[0],
            y < old(self).size[1],
        ensures
            final(self).wf(),
            final(self).size == old(self).size,
            final(self).pixels@ == old(self).pixels@.update(y * old(self).size[0] + x, coverage),
    {
        let count = self.pixels.len();
        proof {
            lemma_index_in_grid(x as int, y as int, self.size[0] as int, self.size[1] as int);
        }
        let index = y * self.size[0] + x;
        self.pixels[index] = coverage;
    }

    /// A copy of the part that starts at column `x` and row `y` and is `w`
    /// wide and `h` high.
    pub fn region(&self, position: [usize; 2], size: [usize; 2]) -> (r: FontImage)
        requires
            self.wf(),
            position[0] + size[0] <= self.size[0],
            position[1] + size[1] <= self.size[1],
        ensures
            r.wf(),
            r.size == size,
            forall|x: int, y: int|
                0 <= x < size[0] && 0 <= y < size[1] ==> #[trigger] r.at(x, y) == self.at(
                    position[0] + x,
                    position[1] + y,
                ),
    {
        let min_x: usize = position[0];
        let min_y: usize = position[1];
        let width: usize = size[0];
        let max_x: usize = min_x + width;
        let max_y: usize = min_y + size[1];
        let stride: usize = self.size[0];
        let count = self.pixels.len();
        let mut output: Vec<u32> = Vec::new();
        let mut row: usize = min_y;
        assert(0 * width == 0);
        while row < max_y
            invariant
                self.wf(),
                count == self.pixels@.len(),
                stride == self.size[0],
                width == max_x - min_x,
                min_x <= max_x <= self.size[0],
                min_y <= row <= max_y <= self.size[1],
                output@.len() == (row - min_y) * width,
                forall|x: int, y: int|
                    0 <= x < width && 0 <= y < row - min_y ==> #[trigger] output@[y * width + x]
                        == self.at(min_x + x, min_y + y),
            decreases max_y - row,
        {
            let mut column: usize = min_x;
            while column < max_x
                invariant
                    self.wf(),
                    count == self.pixels@.len(),
                    stride == self.size[0],
                    width == max_x - min_x,
                    min_x <= column <= max_x <= self.size[0],
                    min_y <= row < max_y <= self.size[1],
                    output@.len() == (row - min_y) * width + (column - min_x),
                    forall|x: int, y: int|
                        0 <= x < width && 0 <= y < row - min_y ==> #[trigger] output@[y * width + x]
                            == self.at(min_x + x, min_y + y),
                    forall|x: int|
                        0 <= x < column - min_x ==> #[trigger] output@[(row - min_y) * width + x]
                            == self.at(min_x + x, row as int),
                decreases max_x - column,
            {
                proof {
                    lemma_index_in_grid(
                        column as int,
                        row as int,
                        self.size[0] as int,
                        self.size[1] as int,
                    );
                }
                let ghost before = output@;
                output.push(self.pixels[row * stride + column]);
                proof {
                    assert forall|x: int, y: int|
                        0 <= x < width && 0 <= y < row - min_y implies #[trigger] output@[y * width
                        + x] == self.at(min_x + x, min_y + y) by {
                        lemma_index_in_grid(x, y, width as int, row - min_y);
                        assert(output@[y * width + x] == before[y * width + x]);
                    }
                }
                column = column + 1;
            }
            proof {
                assert((row - min_y) * width + width == (row + 1 - min_y) * width)
                    by (nonlinear_arith);
                assert forall|x: int, y: int|
                    0 <= x < width && 0 <= y < row + 1 - min_y implies #[trigger] output@[y * width
                    + x] == self.at(min_x + x, min_y + y) by {
                    if y == row - min_y {
                    }
                }
            }
            row = row + 1;
        }
        assert(output@.len() == size[0] * size[1]) by (nonlinear_arith)
            requires
                output@.len() == (max_y - min_y) * width,
                size[1] == max_y - min_y,
                size[0] == width,
        ;
        FontImage { size, pixels: output }
    }
}

/// An image stored in RAM.
#[derive(Clone, Debug, PartialEq, Eq)]
pub enum ImageData {
    /// RGBA image.
    Color(Arc<ColorImage>),
    /// Used for the font texture.
    Font(FontImage),
}

impl ImageData {
    pub open spec fn spec_size(&self) -> [usize; 2] {
        match self {
            ImageData::Color(image) => image.size,
            ImageData::Font(image) => image.size,
        }
    }

    #[verifier::when_used_as_spec(spec_size)]
    pub fn size(&self) -> (r: [usize; 2])
        ensures
            r == self.spec_size(),
    {
        match self {
            ImageData::Color(image) => image.size,
            ImageData::Font(image) => image.size,
        }
    }

    pub fn width(&self) -> (r: usize)
        ensures
            r == self.spec_size()[0],
    {
        self.size()[0]
    }

    pub fn height(&self) -> (r: usize)
        ensures
            r == self.spec_size()[1],
    {
        self.size()[1]
    }

    /// Either kind of image takes four bytes a pixel once it is a texture.
    pub fn bytes_per_pixel(&self) -> (r: usize)
        ensures
            r == 4,
    {
        match self {
            ImageData::Color(_) | ImageData::Font(_) => 4,
        }
    }

}

impl From<ColorImage> for ImageData {
    fn from(image: ColorImage) -> (r: ImageData) {
        ImageData::Color(Arc::new(image))
    }
}

impl vstd::std_specs::convert::FromSpecImpl<ColorImage> for ImageData {
    open spec fn obeys_from_spec() -> bool {
        true
    }

    open spec fn from_spec(image: ColorImage) -> ImageData {
        ImageData::Color(Arc::new(image))
    }
}

impl From<Arc<ColorImage>> for ImageData {
    fn from(image: Arc<ColorImage>) -> (r: ImageData) {
        ImageData::Color(image)
    }
}

impl vstd::std_specs::convert::FromSpecImpl<Arc<ColorImage>> for ImageData {
    open spec fn obeys_from_spec() -> bool {
        true
    }

    open spec fn from_spec(image: Arc<ColorImage>) -> ImageData {
        ImageData::Color(image)
    }
}

impl From<FontImage> for ImageData {
    fn from(image: FontImage) -> (r: ImageData) {
        ImageData::Font(image)
    }
}

impl vstd::std_specs::convert::FromSpecImpl<FontImage> for ImageData {
    open spec fn obeys_from_spec() -> bool {
        true
    }

    open spec fn from_spec(image: FontImage) -> ImageData {
        ImageData::Font(image)
    }
}


/// A change to an image: either a whole new image, or an update to a
/// rectangular region of it. `options` says how the texture is sampled.
#[derive(Clone, Debug, PartialEq, Eq)]
pub struct ImageDelta<Options> {
    /// What to set the texture to: the whole texture if `pos` is `None`, else
    /// a patch of it that starts at `pos`.
    pub image: ImageData,
    pub options: Options,
    pub pos: Option<[usize; 2]>,
}

/// What converts to image data: a color image, shared or not, becomes the
/// color variant and a font image the font variant.
pub proof fn lemma_conversions_to_image_data(
    color: ColorImage,
    shared: Arc<ColorImage>,
    font: FontImage,
)
    ensures
        <ColorImage as IntoSpec<ImageData>>::obeys_into_spec(),
        <ColorImage as IntoSpec<ImageData>>::into_spec(color) == ImageData::Color(Arc::new(color)),
        <Arc<ColorImage> as IntoSpec<ImageData>>::obeys_into_spec(),
        <Arc<ColorImage> as IntoSpec<ImageData>>::into_spec(shared) == ImageData::Color(shared),
        <FontImage as IntoSpec<ImageData>>::obeys_into_spec(),
        <FontImage as IntoSpec<ImageData>>::into_spec(font) == ImageData::Font(font),
{
}

impl<Options> ImageDelta<Options> {
    /// Update the whole texture with anything that converts to image data.
    pub fn full<I: Into<ImageData>>(image: I, options: Options) -> (r: Self)
        ensures
            r.options == options,
            r.pos.is_none(),
            I::obeys_into_spec() ==> r.image == image.into_spec(),
    {
        ImageDelta { image: image.into(), options, pos: None }
    }

    /// Update a sub-region of an existing texture, which starts at `pos`,
    /// with anything that converts to image data.
    pub fn partial<I: Into<ImageData>>(pos: [usize; 2], image: I, options: Options) -> (r: Self)
        ensures
            r.options == options,
            r.pos == Some(pos),
            I::obeys_into_spec() ==> r.image == image.into_spec(),
    {
        ImageDelta { image: image.into(), options, pos: Some(pos) }
    }

    /// Is this affecting the whole texture? If not, it updates a sub-region.
    pub fn is_whole(&self) -> (r: bool)
        ensures
            r == self.pos.is_none(),
    {
        self.pos.is_none()
    }
}

} // verus!
