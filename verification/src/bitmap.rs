//! The canonical bitmap: rows of RGBA pixels, one byte per channel, with
//! no padding between the rows.

use vstd::prelude::*;

verus! {

/// What a bitmap holds: its size in pixels and its bytes, row after row,
/// four bytes to the pixel in the order red, green, blue, alpha.
pub ghost struct Image {
    pub width: int,
    pub height: int,
    pub data: Seq<u8>,
}

impl Image {
    pub open spec fn wf(self) -> bool {
        &&& 0 <= self.width <= u32::MAX
        &&& 0 <= self.height <= u32::MAX
        &&& self.data.len() == self.height * (4 * self.width)
    }

    /// The pixel `(x, y)` lies in the image.
    pub open spec fn has(self, x: int, y: int) -> bool {
        0 <= x < self.width && 0 <= y < self.height
    }

    /// Channel `c` of the pixel `(x, y)`.
    pub open spec fn channel(self, x: int, y: int, c: int) -> u8 {
        self.data[place(4 * self.width, y, 4 * x + c)]
    }

    /// The pixel `(x, y)` lies in the window that a layer of the given size
    /// takes when its top left corner is put at `(left, top)`.
    pub open spec fn in_window(x: int, y: int, left: int, top: int, layer: Image) -> bool {
        left <= x < left + layer.width && top <= y < top + layer.height
    }

    /// Channel `c` of the pixel `(x, y)` once `layer` has been copied onto
    /// the image with its top left corner at `(left, top)`.
    pub open spec fn pasted_channel(self, layer: Image, left: int, top: int, x: int, y: int, c: int) -> u8 {
        if Image::in_window(x, y, left, top, layer) {
            layer.channel(x - left, y - top, c)
        } else {
            self.channel(x, y, c)
        }
    }
}

/// Where the byte at column `col` of row `row` stands, with `stride` bytes
/// to the row.
pub open spec fn place(stride: int, row: int, col: int) -> int {
    row * stride + col
}

/// The byte at column `col` of row `row` stands at `row * stride + col`,
/// which lies within `rows * stride` bytes.
pub proof fn lemma_place_in_bounds(stride: int, rows: int, row: int, col: int)
    requires
        0 <= row < rows,
        0 <= col < stride,
    ensures
        0 <= row * stride + col < rows * stride,
        row * stride + stride <= rows * stride,
        0 <= row * stride,
{
    assert(row * stride + stride == (row + 1) * stride) by (nonlinear_arith);
    assert((row + 1) * stride <= rows * stride) by (nonlinear_arith)
        requires
            row + 1 <= rows,
            0 <= stride,
    ;
    assert(0 <= row * stride) by (nonlinear_arith)
        requires
            0 <= row,
            0 <= stride,
    ;
}

/// Bytes of an earlier row stand before those of a later one.
pub proof fn lemma_place_ordered(stride: int, row1: int, col1: int, row2: int, col2: int)
    requires
        0 <= row1 < row2,
        0 <= col1 < stride,
        0 <= col2,
    ensures
        row1 * stride + col1 < row2 * stride + col2,
{
    assert(row1 * stride + stride == (row1 + 1) * stride) by (nonlinear_arith);
    assert((row1 + 1) * stride <= row2 * stride) by (nonlinear_arith)
        requires
            row1 + 1 <= row2,
            0 <= stride,
    ;
}

/// Two places are the same byte only if row and column agree.
pub proof fn lemma_place_injective(stride: int, row1: int, col1: int, row2: int, col2: int)
    requires
        0 <= row1,
        0 <= row2,
        0 <= col1 < stride,
        0 <= col2 < stride,
        row1 * stride + col1 == row2 * stride + col2,
    ensures
        row1 == row2,
        col1 == col2,
{
    if row1 < row2 {
        lemma_place_ordered(stride, row1, col1, row2, col2);
    }
    if row2 < row1 {
        lemma_place_ordered(stride, row2, col2, row1, col1);
    }
}

/// The largest width or height, in pixels, of a bitmap that is resampled
/// and of what it is resampled to. The sampler places its samples in
/// single precision: within this limit it is off by far less than half a
/// pixel, while on bitmaps with millions of columns it can miss every
/// source pixel and then panics.
pub const MAX_DIMENSION: u32 = 65535;

/// The bytes that `image::imageops::resize` gives with the triangle filter
/// for an RGBA image of `width` by `height` pixels over `data`, resized to
/// `nwidth` by `nheight` pixels.
pub uninterp spec fn triangle_resized(
    data: Seq<u8>,
    width: u32,
    height: u32,
    nwidth: u32,
    nheight: u32,
) -> Seq<u8>;

/// The bytes of an RGBA image of `width` by `height` pixels over `data`
/// once it is resized to `nwidth` by `nheight` pixels: `data` itself
/// where that is its size, else what the triangle filter gives.
pub open spec fn resized_data(
    data: Seq<u8>,
    width: u32,
    height: u32,
    nwidth: u32,
    nheight: u32,
) -> Seq<u8> {
    if nwidth == width && nheight == height {
        data
    } else {
        triangle_resized(data, width, height, nwidth, nheight)
    }
}

/// A bitmap of `width` by `height` pixels can be resampled to `nwidth`
/// by `nheight` pixels: neither size is beyond `MAX_DIMENSION`, and the
/// bitmaps that are made on the way can be addressed: one of `width` by
/// `nheight` pixels with sixteen bytes to the pixel, and the result.
pub open spec fn samplable(width: int, height: int, nwidth: int, nheight: int) -> bool {
    &&& width <= MAX_DIMENSION
    &&& height <= MAX_DIMENSION
    &&& 0 <= nwidth <= MAX_DIMENSION
    &&& 0 <= nheight <= MAX_DIMENSION
    &&& 16 * (nheight * width) <= isize::MAX
    &&& 4 * (nheight * nwidth) <= isize::MAX
}

/// A bitmap of `width` by `height` pixels can be resized to `nwidth` by
/// `nheight` pixels: it has at least one pixel, and either that is its
/// size already, so that it is only copied, or it can be resampled.
pub open spec fn resizable(width: int, height: int, nwidth: int, nheight: int) -> bool {
    &&& 0 < width
    &&& 0 < height
    &&& (nwidth == width && nheight == height) || samplable(width, height, nwidth, nheight)
}

/// Calls `image::imageops::resize` with `FilterType::Triangle` on the RGBA
/// image of `width` by `height` pixels over `data`. The contract claims
/// that the result has four bytes for each pixel of the new size, and
/// that its bytes are those of `data` where the new size is the old one,
/// in which case `resize` copies the image; else it names them. What is
/// not resizable is left out: of an empty source the sampler reads a
/// pixel that is not there, beyond `MAX_DIMENSION` its positions in
/// single precision can miss the source, and it panics where a bitmap
/// that it makes cannot be addressed.
#[verifier::external_body]
fn resize_triangle(data: &Vec<u8>, width: u32, height: u32, nwidth: u32, nheight: u32) -> (out:
    Vec<u8>)
    requires
        resizable(width as int, height as int, nwidth as int, nheight as int),
        data@.len() == height as int * (4 * width as int),
    ensures
        out@ == (if nwidth == width && nheight == height {
            data@
        } else {
            triangle_resized(data@, width, height, nwidth, nheight)
        }),
        out@.len() == nheight as int * (4 * nwidth as int),
{
    let source = image::RgbaImage::from_raw(width, height, data.clone()).unwrap();
    image::imageops::resize(&source, nwidth, nheight, image::imageops::FilterType::Triangle)
        .into_raw()
}

/// Copying a layer onto an image failed: the layer does not fit.
#[derive(Debug, Copy, Clone, PartialEq, Eq, Structural)]
pub enum BitmapError {
    /// The window of the layer reaches beyond the image.
    DimensionMismatch,
}

/// A bitmap of RGBA pixels with one byte per channel.
#[derive(Debug, Clone)]
pub struct Bitmap {
    width: u32,
    height: u32,
    data: Vec<u8>,
}

impl View for Bitmap {
    type V = Image;

    closed spec fn view(&self) -> Image {
        Image { width: self.width as int, height: self.height as int, data: self.data@ }
    }
}

impl Bitmap {
    /// The bitmap holds as many bytes as its size asks for.
    pub open spec fn wf(&self) -> bool {
        self@.wf()
    }

    /// A bitmap of the given size over `data`, if `data` has four bytes
    /// for each pixel and no more.
    pub fn from_raw(width: u32, height: u32, data: Vec<u8>) -> (r: Option<Bitmap>)
        ensures
            r is Some <==> data@.len() == height as int * (4 * width as int),
            r is Some ==> r.unwrap().wf() && r.unwrap()@ == (Image {
                width: width as int,
                height: height as int,
                data: data@,
            }),
    {
        let row: u64 = 4 * (width as u64);
        proof {
            assert(0 <= height as int * row as int <= 0xffff_ffff * 0x3_ffff_fffc)
                by (nonlinear_arith)
                requires
                    0 <= height <= 0xffff_ffff,
                    0 <= row <= 0x3_ffff_fffc,
            ;
        }
        let wanted: u128 = (height as u128) * (row as u128);
        if data.len() as u128 == wanted {
            Some(Bitmap { width, height, data })
        } else {
            None
        }
    }

    pub fn width(&self) -> (r: u32)
        ensures
            r == self@.width,
    {
        self.width
    }

    pub fn height(&self) -> (r: u32)
        ensures
            r == self@.height,
    {
        self.height
    }

    /// The bytes of the bitmap, row after row.
    pub fn as_raw(&self) -> (r: &Vec<u8>)
        ensures
            r@ == self@.data,
    {
        &self.data
    }

    /// The bytes of the bitmap, row after row.
    pub fn into_raw(self) -> (r: Vec<u8>)
        ensures
            r@ == self@.data,
    {
        self.data
    }

    /// A bitmap of the given size with every byte zero, if that many bytes
    /// can be addressed.
    pub fn new(width: u32, height: u32) -> (r: Option<Bitmap>)
        ensures
            r is Some <==> height as int * (4 * width as int) <= usize::MAX,
            r is Some ==> r.unwrap().wf() && r.unwrap()@.width == width && r.unwrap()@.height
                == height,
            r is Some ==> forall|i: int|
                0 <= i < r.unwrap()@.data.len() ==> r.unwrap()@.data[i] == 0,
    {
        let row: u64 = 4 * (width as u64);
        proof {
            assert(0 <= height as int * row as int <= 0xffff_ffff * 0x3_ffff_fffc)
                by (nonlinear_arith)
                requires
                    0 <= height <= 0xffff_ffff,
                    0 <= row <= 0x3_ffff_fffc,
            ;
        }
        let wanted: u128 = (height as u128) * (row as u128);
        if wanted > usize::MAX as u128 {
            return None;
        }
        let data: Vec<u8> = vec![0u8; wanted as usize];
        Some(Bitmap { width, height, data })
    }

    /// The bitmap can be resized to `nwidth` by `nheight` pixels.
    pub open spec fn can_resize(&self, nwidth: u32, nheight: u32) -> bool {
        resizable(self@.width, self@.height, nwidth as int, nheight as int)
    }

    /// The bitmap resized to `nwidth` by `nheight` pixels with the
    /// triangle filter; the bitmap itself where that is its size. `None`
    /// where it cannot be resized.
    pub fn resized(&self, nwidth: u32, nheight: u32) -> (r: Option<Bitmap>)
        requires
            self.wf(),
        ensures
            r is Some <==> self.can_resize(nwidth, nheight),
            r is Some ==> r.unwrap().wf() && r.unwrap()@ == (Image {
                width: nwidth as int,
                height: nheight as int,
                data: resized_data(
                    self@.data,
                    self@.width as u32,
                    self@.height as u32,
                    nwidth,
                    nheight,
                ),
            }),
    {
        if self.width == 0 || self.height == 0 {
            return None;
        }
        if nwidth != self.width || nheight != self.height {
            if self.width > MAX_DIMENSION || self.height > MAX_DIMENSION || nwidth > MAX_DIMENSION
                || nheight > MAX_DIMENSION {
                return None;
            }
            proof {
                assert(0 <= nheight as int * self.width as int <= 65535 * 65535)
                    by (nonlinear_arith)
                    requires
                        0 <= nheight <= 65535,
                        0 <= self.width <= 65535,
                ;
                assert(0 <= nheight as int * nwidth as int <= 65535 * 65535) by (nonlinear_arith)
                    requires
                        0 <= nheight <= 65535,
                        0 <= nwidth <= 65535,
                ;
            }
            let between: u64 = 16 * ((nheight as u64) * (self.width as u64));
            let after: u64 = 4 * ((nheight as u64) * (nwidth as u64));
            if between > isize::MAX as u64 || after > isize::MAX as u64 {
                return None;
            }
        }
        let data = resize_triangle(&self.data, self.width, self.height, nwidth, nheight);
        Some(Bitmap { width: nwidth, height: nheight, data })
    }

    /// Channel `c` of the pixel `(x, y)`.
    pub fn get_channel(&self, x: u32, y: u32, c: u8) -> (r: u8)
        requires
            self.wf(),
            self@.has(x as int, y as int),
            c < 4,
        ensures
            r == self@.channel(x as int, y as int, c as int),
    {
        let stride: u64 = 4 * (self.width as u64);
        let col: u64 = 4 * (x as u64) + c as u64;
        let size: usize = self.data.len();
        proof {
            lemma_place_in_bounds(stride as int, self.height as int, y as int, col as int);
        }
        let at: u64 = (y as u64) * stride + col;
        self.data[at as usize]
    }

    /// Copies `other` onto this bitmap with its top left corner at
    /// `(x, y)`. Fails, and changes nothing, where `other` would reach
    /// beyond the right or the lower edge. Pixels outside the window of
    /// `other` keep their value.
    pub fn copy_from(&mut self, other: &Bitmap, x: u32, y: u32) -> (r: Result<(), BitmapError>)
        requires
            old(self).wf(),
            other.wf(),
        ensures
            final(self).wf(),
            final(self)@.width == old(self)@.width,
            final(self)@.height == old(self)@.height,
            r is Err <==> old(self)@.width < other@.width + x || old(self)@.height < other@.height
                + y,
            r is Err ==> final(self)@ == old(self)@,
            r is Ok ==> forall|px: int, py: int, c: int|
                final(self)@.has(px, py) && 0 <= c < 4 ==> #[trigger] final(self)@.channel(
                    px,
                    py,
                    c,
                ) == old(self)@.pasted_channel(other@, x as int, y as int, px, py, c),
    {
        if (self.width as u64) < other.width as u64 + x as u64 || (self.height as u64)
            < other.height as u64 + y as u64 {
            return Err(BitmapError::DimensionMismatch);
        }
        let to_stride: u64 = 4 * (self.width as u64);
        let from_stride: u64 = 4 * (other.width as u64);
        let first: u64 = 4 * (x as u64);
        let size: usize = self.data.len();
        let from_size: usize = other.data.len();
        let ghost before = self.data@;
        let mut k: u32 = 0;
        while k < other.height
            invariant
                k <= other.height,
                other.wf(),
                self.width == old(self).width,
                self.height == old(self).height,
                to_stride == 4 * self.width,
                from_stride == 4 * other.width,
                first == 4 * x,
                first + from_stride <= to_stride,
                y + other.height <= self.height,
                before == old(self).data@,
                before.len() == self.height * to_stride,
                before.len() == size,
                other.data@.len() == from_size,
                self.data@.len() == before.len(),
                forall|row: int, col: int|
                    0 <= row < self.height && 0 <= col < to_stride ==> self.data@[#[trigger] place(
                        to_stride as int,
                        row,
                        col,
                    )] == (if y <= row < y + k && first <= col < first + from_stride {
                        other.data@[place(from_stride as int, row - y, col - first)]
                    } else {
                        before[place(to_stride as int, row, col)]
                    }),
            decreases other.height - k,
        {
            let mut j: u64 = 0;
            while j < from_stride
                invariant
                    k < other.height,
                    j <= from_stride,
                    other.wf(),
                    self.width == old(self).width,
                    self.height == old(self).height,
                    to_stride == 4 * self.width,
                    from_stride == 4 * other.width,
                    first == 4 * x,
                    first + from_stride <= to_stride,
                    y + other.height <= self.height,
                    before.len() == self.height * to_stride,
                    before.len() == size,
                    other.data@.len() == from_size,
                    self.data@.len() == before.len(),
                    forall|row: int, col: int|
                        0 <= row < self.height && 0 <= col < to_stride
                            ==> self.data@[#[trigger] place(to_stride as int, row, col)] == (if (y
                            <= row < y + k && first <= col < first + from_stride) || (row == y + k
                            && first <= col < first + j) {
                            other.data@[place(from_stride as int, row - y, col - first)]
                        } else {
                            before[place(to_stride as int, row, col)]
                        }),
                decreases from_stride - j,
            {
                proof {
                    lemma_place_in_bounds(
                        from_stride as int,
                        other.height as int,
                        k as int,
                        j as int,
                    );
                    lemma_place_in_bounds(
                        to_stride as int,
                        self.height as int,
                        y + k,
                        first + j,
                    );
                }
                let from: u64 = (k as u64) * from_stride + j;
                let to: u64 = (y as u64 + k as u64) * to_stride + first + j;
                let value: u8 = other.data[from as usize];
                let ghost earlier = self.data@;
                self.data.set(to as usize, value);
                proof {
                    assert forall|row: int, col: int|
                        0 <= row < self.height && 0 <= col < to_stride implies self.data@[#[trigger] place(
                        to_stride as int,
                        row,
                        col,
                    )] == (if (y <= row < y + k && first <= col < first + from_stride) || (row == y
                        + k && first <= col < first + j + 1) {
                        other.data@[place(from_stride as int, row - y, col - first)]
                    } else {
                        before[place(to_stride as int, row, col)]
                    }) by {
                        lemma_place_in_bounds(to_stride as int, self.height as int, row, col);
                        if place(to_stride as int, row, col) == to {
                            lemma_place_injective(to_stride as int, row, col, y + k, first + j);
                        } else {
                            assert(self.data@[place(to_stride as int, row, col)]
                                == earlier[place(to_stride as int, row, col)]);
                        }
                    }
                }
                j = j + 1;
            }
            k = k + 1;
        }
        proof {
            assert forall|px: int, py: int, c: int|
                self@.has(px, py) && 0 <= c < 4 implies #[trigger] self@.channel(px, py, c) == old(
                self,
            )@.pasted_channel(other@, x as int, y as int, px, py, c) by {
                let col = 4 * px + c;
                assert(self.data@[place(to_stride as int, py, col)] == (if y <= py < y + k && first
                    <= col < first + from_stride {
                    other.data@[place(from_stride as int, py - y, col - first)]
                } else {
                    before[place(to_stride as int, py, col)]
                }));
            }
        }
        Ok(())
    }
}

} // verus!
