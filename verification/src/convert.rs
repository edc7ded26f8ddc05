//! From the pixel layout of a frame buffer to RGBA.

use vstd::prelude::*;
use vstd::arithmetic::div_mod::{lemma_fundamental_div_mod, lemma_mod_pos_bound, lemma_div_pos_is_pos};
use crate::backend::FrameFormat;
use crate::bitmap::{place, lemma_place_in_bounds, lemma_place_ordered, Bitmap, Image};

verus! {

/// `wl_shm` code of the layout with the bytes blue, green, red, alpha.
pub const FORMAT_ARGB8888: u32 = 0;

/// `wl_shm` code of the layout with the bytes blue, green, red, unused.
pub const FORMAT_XRGB8888: u32 = 1;

/// `wl_shm` code of the layout with the bytes red, green, blue, unused.
pub const FORMAT_XBGR8888: u32 = 0x3432_4258;

/// `wl_shm` code of the layout with the bytes red, green, blue, alpha.
pub const FORMAT_ABGR8888: u32 = 0x3432_4241;

/// How the four bytes of a pixel are brought into the order red, green,
/// blue, alpha.
#[derive(Debug, Copy, Clone, PartialEq, Eq, Structural)]
pub enum Converter {
    /// The bytes are in that order already.
    Keep,
    /// The first and the third byte change places.
    SwapRedBlue,
}

/// The converter for a layout, if the layout is supported.
pub open spec fn converter_for(format: u32) -> Option<Converter> {
    if format == FORMAT_XBGR8888 || format == FORMAT_ABGR8888 {
        Some(Converter::Keep)
    } else if format == FORMAT_XRGB8888 || format == FORMAT_ARGB8888 {
        Some(Converter::SwapRedBlue)
    } else {
        None
    }
}

/// The converter for a layout, if the layout is supported.
pub fn create_converter(format: u32) -> (r: Option<Converter>)
    ensures
        r == converter_for(format),
{
    if format == FORMAT_XBGR8888 || format == FORMAT_ABGR8888 {
        Some(Converter::Keep)
    } else if format == FORMAT_XRGB8888 || format == FORMAT_ARGB8888 {
        Some(Converter::SwapRedBlue)
    } else {
        None
    }
}

impl Converter {
    /// The byte of a pixel in the buffer that holds channel `c` of RGBA.
    pub open spec fn source_channel(self, c: int) -> int {
        match self {
            Converter::Keep => c,
            Converter::SwapRedBlue => if c == 0 {
                2
            } else if c == 2 {
                0
            } else {
                c
            },
        }
    }

    /// Where the byte at `i` of a converted buffer of `len` bytes comes
    /// from: within a whole group of four bytes from the place of its
    /// channel, in what is left over at the end from `i` itself.
    pub open spec fn source_index(self, i: int, len: int) -> int {
        if i - i % 4 + 4 <= len {
            i - i % 4 + self.source_channel(i % 4)
        } else {
            i
        }
    }

    fn source_of(&self, c: u8) -> (r: u8)
        requires
            c < 4,
        ensures
            r == self.source_channel(c as int),
            r < 4,
    {
        match self {
            Converter::Keep => c,
            Converter::SwapRedBlue => if c == 0 {
                2
            } else if c == 2 {
                0
            } else {
                c
            },
        }
    }

    /// Brings each whole group of four bytes of `data` into the order red,
    /// green, blue, alpha. Bytes beyond the last whole group stay.
    pub fn convert_inplace(&self, data: &mut Vec<u8>)
        ensures
            final(data)@.len() == old(data)@.len(),
            forall|i: int|
                0 <= i < old(data)@.len() ==> #[trigger] final(data)@[i] == old(
                    data,
                )@[self.source_index(i, old(data)@.len() as int)],
    {
        let n: usize = data.len();
        let mut i: usize = 0;
        while i < n && n - i >= 4
            invariant
                i <= n,
                i % 4 == 0,
                n == old(data)@.len(),
                data@.len() == n,
                forall|j: int|
                    0 <= j < i ==> #[trigger] data@[j] == old(data)@[self.source_index(j, n as int)],
                forall|j: int| i <= j < n ==> #[trigger] data@[j] == old(data)@[j],
            decreases n - i,
        {
            let b0: u8 = data[i + self.source_of(0) as usize];
            let b1: u8 = data[i + self.source_of(1) as usize];
            let b2: u8 = data[i + self.source_of(2) as usize];
            let b3: u8 = data[i + self.source_of(3) as usize];
            data.set(i, b0);
            data.set(i + 1, b1);
            data.set(i + 2, b2);
            data.set(i + 3, b3);
            i = i + 4;
        }
    }
}

/// Why a frame buffer cannot be read as a bitmap.
#[derive(Debug, Copy, Clone, PartialEq, Eq, Structural)]
pub enum NormalizeError {
    /// There is no converter for the layout with this code.
    UnsupportedFormat(u32),
    /// The stride is less than four bytes for each pixel of a row.
    RowTooShort,
    /// The buffer holds less than stride times height bytes.
    BufferTooShort,
}

/// Byte `k` of the pixel `(x, y)` in a buffer with `stride` bytes to the
/// row.
pub open spec fn pixel_byte(buffer: Seq<u8>, stride: int, x: int, y: int, k: int) -> u8 {
    buffer[place(stride, y, 4 * x + k)]
}

/// `image` holds the pixels of the frame in `buffer`: it has the size of
/// the frame, and each channel of each pixel is the byte that the layout's
/// converter names, of the four bytes of that pixel in its row of `buffer`.
pub open spec fn is_normalized(
    image: Image,
    buffer: Seq<u8>,
    format: FrameFormat,
    converter: Converter,
) -> bool {
    &&& image.wf()
    &&& image.width == format.width
    &&& image.height == format.height
    &&& forall|x: int, y: int, c: int|
        image.has(x, y) && 0 <= c < 4 ==> #[trigger] image.channel(x, y, c) == pixel_byte(
            buffer,
            format.stride as int,
            x,
            y,
            converter.source_channel(c),
        )
}

/// The bytes of the bitmap that holds the pixels of the frame in
/// `buffer`: for each byte of the bitmap, the byte of the same pixel in
/// `buffer` that the converter names.
pub open spec fn normalized_data(buffer: Seq<u8>, format: FrameFormat, converter: Converter) -> Seq<
    u8,
> {
    let row_len = 4 * format.width as int;
    Seq::new(
        (format.height as int * row_len) as nat,
        |i: int|
            pixel_byte(
                buffer,
                format.stride as int,
                (i % row_len) / 4,
                i / row_len,
                converter.source_channel((i % row_len) % 4),
            ),
    )
}

/// There is one bitmap that holds the pixels of a frame, and its bytes
/// are `normalized_data`.
pub proof fn lemma_normalized_data(
    image: Image,
    buffer: Seq<u8>,
    format: FrameFormat,
    converter: Converter,
)
    requires
        is_normalized(image, buffer, format, converter),
    ensures
        image.data == normalized_data(buffer, format, converter),
{
    let row_len = 4 * format.width as int;
    let wanted = normalized_data(buffer, format, converter);
    assert(image.data.len() == wanted.len()) by {
        assert(0 <= format.height as int * row_len) by (nonlinear_arith)
            requires
                0 <= format.height,
                0 <= row_len,
        ;
    }
    assert forall|i: int| 0 <= i < image.data.len() implies image.data[i] == wanted[i] by {
        if row_len <= 0 {
            assert(format.height as int * row_len == 0) by (nonlinear_arith)
                requires
                    row_len == 0,
            ;
        }
        let row = i / row_len;
        let col = i % row_len;
        lemma_fundamental_div_mod(i, row_len);
        lemma_mod_pos_bound(i, row_len);
        lemma_div_pos_is_pos(i, row_len);
        assert(row < format.height) by (nonlinear_arith)
            requires
                i == row_len * row + col,
                0 <= col,
                0 < row_len,
                i < format.height as int * row_len,
        ;
        assert(place(row_len, row, col) == i) by (nonlinear_arith)
            requires
                i == row_len * row + col,
        ;
        let x = col / 4;
        let c = col % 4;
        assert(image.channel(x, row, c) == image.data[i]);
    }
}

/// Padding does not count: two buffers that agree on the four bytes of
/// every pixel give the same bitmap, whatever their strides and whatever
/// stands between their rows.
pub proof fn lemma_padding_is_ignored(
    first: Seq<u8>,
    first_format: FrameFormat,
    second: Seq<u8>,
    second_format: FrameFormat,
    converter: Converter,
)
    requires
        first_format.width == second_format.width,
        first_format.height == second_format.height,
        forall|x: int, y: int, k: int|
            0 <= x < first_format.width && 0 <= y < first_format.height && 0 <= k < 4
                ==> #[trigger] pixel_byte(first, first_format.stride as int, x, y, k) == pixel_byte(
                second,
                second_format.stride as int,
                x,
                y,
                k,
            ),
    ensures
        normalized_data(first, first_format, converter) == normalized_data(
            second,
            second_format,
            converter,
        ),
{
    let row_len = 4 * first_format.width as int;
    let a = normalized_data(first, first_format, converter);
    let b = normalized_data(second, second_format, converter);
    assert forall|i: int| 0 <= i < a.len() implies a[i] == b[i] by {
        if row_len <= 0 {
            assert(first_format.height as int * row_len == 0) by (nonlinear_arith)
                requires
                    row_len == 0,
            ;
        }
        let row = i / row_len;
        let col = i % row_len;
        lemma_fundamental_div_mod(i, row_len);
        lemma_mod_pos_bound(i, row_len);
        lemma_div_pos_is_pos(i, row_len);
        assert(row < first_format.height) by (nonlinear_arith)
            requires
                i == row_len * row + col,
                0 <= col,
                0 < row_len,
                i < first_format.height as int * row_len,
        ;
        assert(pixel_byte(
            first,
            first_format.stride as int,
            col / 4,
            row,
            converter.source_channel(col % 4),
        ) == pixel_byte(
            second,
            second_format.stride as int,
            col / 4,
            row,
            converter.source_channel(col % 4),
        ));
    }
}

/// What `normalize` answers for a buffer of `len` bytes with this format:
/// the error, or `None` where it gives a bitmap.
pub open spec fn normalize_error(len: int, format: FrameFormat) -> Option<NormalizeError> {
    if converter_for(format.format) is None {
        Some(NormalizeError::UnsupportedFormat(format.format))
    } else if (format.stride as int) < 4 * format.width {
        Some(NormalizeError::RowTooShort)
    } else if len < format.spec_byte_len() {
        Some(NormalizeError::BufferTooShort)
    } else {
        None
    }
}

/// Reads the frame in `buffer` as an RGBA bitmap, row by row: of each row
/// the first four bytes per pixel are taken, whatever the stride.
pub fn normalize(buffer: &[u8], format: &FrameFormat) -> (r: Result<Bitmap, NormalizeError>)
    ensures
        match normalize_error(buffer@.len() as int, *format) {
            Some(e) => r == Err::<Bitmap, NormalizeError>(e),
            None => r is Ok && r.unwrap().wf() && is_normalized(
                r.unwrap()@,
                buffer@,
                *format,
                converter_for(format.format).unwrap(),
            ) && r.unwrap()@.data == normalized_data(
                buffer@,
                *format,
                converter_for(format.format).unwrap(),
            ),
        },
{
    let converter = match create_converter(format.format) {
        None => { return Err(NormalizeError::UnsupportedFormat(format.format)); },
        Some(c) => c,
    };
    let width: u64 = format.width as u64;
    let stride: u64 = format.stride as u64;
    if stride < 4 * width {
        return Err(NormalizeError::RowTooShort);
    }
    let size: usize = buffer.len();
    if (size as u64) < format.byte_len() {
        return Err(NormalizeError::BufferTooShort);
    }
    let s0: u64 = converter.source_of(0) as u64;
    let s1: u64 = converter.source_of(1) as u64;
    let s2: u64 = converter.source_of(2) as u64;
    let s3: u64 = converter.source_of(3) as u64;
    let mut out: Vec<u8> = Vec::new();
    let mut y: u32 = 0;
    while y < format.height
        invariant
            y <= format.height,
            width == format.width,
            stride == format.stride,
            4 * width <= stride,
            size == buffer@.len(),
            format.stride as int * format.height as int <= size,
            s0 == converter.source_channel(0),
            s1 == converter.source_channel(1),
            s2 == converter.source_channel(2),
            s3 == converter.source_channel(3),
            out@.len() == place(4 * width as int, y as int, 0),
            forall|row: int, col: int|
                0 <= row < y && 0 <= col < 4 * width ==> out@[#[trigger] place(
                    4 * width as int,
                    row,
                    col,
                )] == buffer@[place(
                    stride as int,
                    row,
                    col - col % 4 + converter.source_channel(col % 4),
                )],
        decreases format.height - y,
    {
        let mut x: u64 = 0;
        while x < width
            invariant
                y < format.height,
                x <= width,
                width == format.width,
                stride == format.stride,
                4 * width <= stride,
                size == buffer@.len(),
                format.stride as int * format.height as int <= size,
                s0 == converter.source_channel(0),
                s1 == converter.source_channel(1),
                s2 == converter.source_channel(2),
                s3 == converter.source_channel(3),
                out@.len() == place(4 * width as int, y as int, 4 * x as int),
                forall|row: int, col: int|
                    0 <= row <= y && 0 <= col < 4 * width && (row < y || col < 4 * x)
                        ==> out@[#[trigger] place(4 * width as int, row, col)] == buffer@[place(
                        stride as int,
                        row,
                        col - col % 4 + converter.source_channel(col % 4),
                    )],
            decreases width - x,
        {
            proof {
                lemma_place_in_bounds(
                    stride as int,
                    format.height as int,
                    y as int,
                    4 * x as int + 3,
                );
                assert(format.height as int * stride as int == format.stride as int
                    * format.height as int) by (nonlinear_arith)
                    requires
                        stride == format.stride,
                ;
            }
            let base: u64 = (y as u64) * stride + 4 * x;
            out.push(buffer[(base + s0) as usize]);
            out.push(buffer[(base + s1) as usize]);
            out.push(buffer[(base + s2) as usize]);
            out.push(buffer[(base + s3) as usize]);
            proof {
                let w4 = 4 * width as int;
                assert forall|row: int, col: int|
                    0 <= row <= y && 0 <= col < w4 && (row < y || col < 4 * x + 4) implies out@[#[trigger] place(
                    w4,
                    row,
                    col,
                )] == buffer@[place(
                    stride as int,
                    row,
                    col - col % 4 + converter.source_channel(col % 4),
                )] by {
                    if row < y {
                        lemma_place_ordered(w4, row, col, y as int, 4 * x as int);
                    }
                }
            }
            x = x + 1;
        }
        proof {
            assert(place(4 * width as int, y as int, 4 * width as int) == place(
                4 * width as int,
                y + 1,
                0,
            )) by (nonlinear_arith);
        }
        y = y + 1;
    }
    let bitmap = Bitmap::from_raw(format.width, format.height, out);
    proof {
        assert(place(4 * width as int, format.height as int, 0) == format.height as int * (4
            * format.width as int));
    }
    let bitmap = bitmap.unwrap();
    proof {
        let image = bitmap@;
        assert forall|px: int, py: int, c: int|
            image.has(px, py) && 0 <= c < 4 implies #[trigger] image.channel(px, py, c)
            == pixel_byte(buffer@, format.stride as int, px, py, converter.source_channel(c)) by {
            let col = 4 * px + c;
            assert(out@[place(4 * width as int, py, col)] == buffer@[place(
                stride as int,
                py,
                col - col % 4 + converter.source_channel(col % 4),
            )]);
        }
        lemma_normalized_data(image, buffer@, *format, converter);
    }
    Ok(bitmap)
}

} // verus!
