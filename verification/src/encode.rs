//! From the composed picture to the bytes of an image file.

use vstd::prelude::*;
use vstd::string::{StrSliceExecFns, StringExecFns};
use crate::backend::EncodingFormat;
use crate::bitmap::{Bitmap, Image};
use crate::parse::{chars_of, trim_bounds, trimmed};
use crate::text::{append_decimal, decimal_digits};

verus! {

#[verifier::external_type_specification]
#[verifier::external_body]
pub struct ExImageError(image::ImageError);

/// The bytes that `image`'s PNG encoder writes for an RGBA picture of
/// `width` by `height` pixels over `data`.
pub uninterp spec fn png_encoded(data: Seq<u8>, width: u32, height: u32) -> Seq<u8>;

/// The bytes that `image`'s JPEG encoder writes for an RGBA picture of
/// `width` by `height` pixels over `data`.
pub uninterp spec fn jpeg_encoded(data: Seq<u8>, width: u32, height: u32) -> Seq<u8>;

/// The text `digits` as bytes.
pub open spec fn ascii_bytes(digits: Seq<char>) -> Seq<u8> {
    Seq::new(digits.len(), |i: int| digits[i] as u8)
}

/// A binary pixmap: the magic `P6`, a line with width, height and the
/// largest sample value 255, then the samples.
pub open spec fn ppm_bytes(data: Seq<u8>, width: u32, height: u32) -> Seq<u8> {
    seq![0x50u8, 0x36u8, 0x0au8] + ascii_bytes(decimal_digits(width as nat)) + seq![0x20u8]
        + ascii_bytes(decimal_digits(height as nat)) + seq![0x20u8, 0x32u8, 0x35u8, 0x35u8, 0x0au8]
        + data
}

/// Calls `PngEncoder::write_image` of `image` on a new vector, with the
/// colour type `Rgba8`. The contract claims that the encoder succeeds
/// exactly on a picture with at least one pixel: it refuses a width or
/// height of zero and nothing else, a vector taking every write. It
/// names the bytes that are written. A buffer of another length than the
/// size asks for is left out: the encoder panics on it.
#[verifier::external_body]
fn png_encode(data: &Vec<u8>, width: u32, height: u32) -> (r: Result<Vec<u8>, image::ImageError>)
    requires
        data@.len() == height as int * (4 * width as int),
    ensures
        r is Ok <==> (width != 0 && height != 0),
        r matches Ok(bytes) ==> bytes@ == png_encoded(data@, width, height),
{
    let mut out: Vec<u8> = Vec::new();
    let encoder = image::codecs::png::PngEncoder::new(&mut out);
    image::ImageEncoder::write_image(encoder, data, width, height, image::ColorType::Rgba8)?;
    Ok(out)
}

/// Calls `JpegEncoder::write_image` of `image` on a new vector, with the
/// colour type `Rgba8`. The contract claims that the encoder succeeds
/// exactly where neither width nor height is beyond `u16::MAX`, which is
/// all that the frame header can say, a vector taking every write. It
/// names the bytes that are written. Left out are a buffer of another
/// length than the size asks for, and a width of which four bytes to the
/// pixel cannot be addressed: the encoder panics on both.
#[verifier::external_body]
fn jpeg_encode(data: &Vec<u8>, width: u32, height: u32) -> (r: Result<Vec<u8>, image::ImageError>)
    requires
        data@.len() == height as int * (4 * width as int),
        4 * width as int <= usize::MAX,
    ensures
        r is Ok <==> (width <= u16::MAX && height <= u16::MAX),
        r matches Ok(bytes) ==> bytes@ == jpeg_encoded(data@, width, height),
{
    let mut out: Vec<u8> = Vec::new();
    let encoder = image::codecs::jpeg::JpegEncoder::new(&mut out);
    image::ImageEncoder::write_image(encoder, data, width, height, image::ColorType::Rgba8)?;
    Ok(out)
}

/// Calls `PnmEncoder::write_image` of `image` on a new vector, with the
/// subtype of a binary pixmap and the colour type `Rgb8`. The contract
/// claims that what is written is the magic, the header line and then
/// `data` as it is, and that the encoder succeeds exactly where three
/// bytes to the pixel of one row can be addressed: it multiplies them
/// out with a check, and every other check passes for a buffer of the
/// right length. A buffer of another length than the size asks for is
/// left out: the encoder panics on it.
#[verifier::external_body]
fn ppm_encode(data: &Vec<u8>, width: u32, height: u32) -> (r: Result<Vec<u8>, image::ImageError>)
    requires
        data@.len() == height as int * (3 * width as int),
    ensures
        r is Ok <==> 3 * width as int <= usize::MAX,
        r matches Ok(bytes) ==> bytes@ == ppm_bytes(data@, width, height),
{
    let mut out: Vec<u8> = Vec::new();
    let encoder = image::codecs::pnm::PnmEncoder::new(&mut out).with_subtype(
        image::codecs::pnm::PnmSubtype::Pixmap(image::codecs::pnm::SampleEncoding::Binary),
    );
    image::ImageEncoder::write_image(encoder, data, width, height, image::ColorType::Rgb8)?;
    Ok(out)
}

/// The encoder for `format` refused the picture.
#[derive(Debug, Copy, Clone, PartialEq, Eq, Structural)]
pub struct EncodeError {
    pub format: EncodingFormat,
}

/// The samples of an RGBA picture without the alpha: of each whole group
/// of four bytes the first three.
pub open spec fn rgb_of(rgba: Seq<u8>) -> Seq<u8> {
    Seq::new((rgba.len() / 4 * 3) as nat, |i: int| rgba[i / 3 * 4 + i % 3])
}

/// The samples of an RGBA picture without the alpha.
pub fn rgba_to_rgb(rgba: &Vec<u8>) -> (rgb: Vec<u8>)
    ensures
        rgb@ == rgb_of(rgba@),
{
    let n: usize = rgba.len();
    let mut rgb: Vec<u8> = Vec::new();
    let mut i: usize = 0;
    while i < n && n - i >= 4
        invariant
            i <= n,
            n == rgba@.len(),
            i % 4 == 0,
            rgb@.len() == i / 4 * 3,
            forall|k: int| 0 <= k < rgb@.len() ==> #[trigger] rgb@[k] == rgba@[k / 3 * 4 + k % 3],
        decreases n - i,
    {
        rgb.push(rgba[i]);
        rgb.push(rgba[i + 1]);
        rgb.push(rgba[i + 2]);
        i = i + 4;
    }
    rgb
}

/// The encoder for `format` takes a picture of `width` by `height`
/// pixels: a JPEG file says neither more than `u16::MAX` columns nor more
/// rows, a PNG file holds at least one pixel, and for a pixmap three
/// bytes to the pixel of one row must be addressable.
pub open spec fn encodable(width: int, height: int, format: EncodingFormat) -> bool {
    match format {
        EncodingFormat::Jpg => width <= u16::MAX && height <= u16::MAX,
        EncodingFormat::Png => width != 0 && height != 0,
        EncodingFormat::Ppm => 3 * width <= usize::MAX,
    }
}

/// The bytes of the file that holds `image` in `format`, or `None` where
/// the encoder does not take the picture.
pub open spec fn encoded(image: Image, format: EncodingFormat) -> Option<Seq<u8>> {
    if encodable(image.width, image.height, format) {
        Some(
            match format {
                EncodingFormat::Jpg => jpeg_encoded(
                    image.data,
                    image.width as u32,
                    image.height as u32,
                ),
                EncodingFormat::Png => png_encoded(
                    image.data,
                    image.width as u32,
                    image.height as u32,
                ),
                EncodingFormat::Ppm => ppm_bytes(
                    rgb_of(image.data),
                    image.width as u32,
                    image.height as u32,
                ),
            },
        )
    } else {
        None
    }
}

/// What is handed on once the encoder for `format` has answered: its
/// bytes, or that it refused.
pub fn encoder_result(format: EncodingFormat, answer: Result<Vec<u8>, image::ImageError>) -> (r:
    Result<Vec<u8>, EncodeError>)
    ensures
        answer matches Ok(bytes) ==> r == Ok::<Vec<u8>, EncodeError>(bytes),
        answer is Err ==> r == Err::<Vec<u8>, EncodeError>(EncodeError { format }),
{
    match answer {
        Ok(bytes) => Ok(bytes),
        Err(_) => Err(EncodeError { format }),
    }
}

/// Encodes `image` in `format`. The alpha channel is dropped for a
/// pixmap, which has none.
pub fn encode(image: &Bitmap, format: EncodingFormat) -> (r: Result<Vec<u8>, EncodeError>)
    requires
        image.wf(),
    ensures
        match encoded(image@, format) {
            Some(bytes) => r is Ok && r.unwrap()@ == bytes,
            None => r == Err::<Vec<u8>, EncodeError>(EncodeError { format }),
        },
{
    let width: u32 = image.width();
    let height: u32 = image.height();
    match format {
        EncodingFormat::Jpg => {
            if 4 * (width as u64) > usize::MAX as u64 {
                return Err(EncodeError { format });
            }
            encoder_result(format, jpeg_encode(image.as_raw(), width, height))
        },
        EncodingFormat::Png => encoder_result(format, png_encode(image.as_raw(), width, height)),
        EncodingFormat::Ppm => {
            let rgb = rgba_to_rgb(image.as_raw());
            proof {
                let w = width as int;
                let h = height as int;
                assert(h * (4 * w) == 4 * (h * w)) by (nonlinear_arith);
                assert(h * (3 * w) == 3 * (h * w)) by (nonlinear_arith);
            }
            encoder_result(format, ppm_encode(&rgb, width, height))
        },
    }
}

/// `c` in lower case if it is an upper case letter of ASCII, else `c`.
pub open spec fn ascii_lower(c: char) -> char {
    if 'A' as u32 <= c as u32 <= 'Z' as u32 {
        ((c as u32 + 32) as u8) as char
    } else {
        c
    }
}

/// `s` with its upper case letters of ASCII in lower case.
pub open spec fn lowered(s: Seq<char>) -> Seq<char> {
    Seq::new(s.len(), |i: int| ascii_lower(s[i]))
}

/// The format that a file extension asks for. White space around the
/// extension and the case of its letters do not count.
pub open spec fn extension_format(extension: Seq<char>) -> Option<EncodingFormat> {
    let word = lowered(trimmed(extension));
    if word == "jpeg"@ || word == "jpg"@ {
        Some(EncodingFormat::Jpg)
    } else if word == "png"@ {
        Some(EncodingFormat::Png)
    } else if word == "ppm"@ {
        Some(EncodingFormat::Ppm)
    } else {
        None
    }
}

fn lower_char(c: char) -> (r: char)
    ensures
        r == ascii_lower(c),
{
    let n: u32 = c as u32;
    if 65 <= n && n <= 90 {
        ((n + 32) as u8) as char
    } else {
        c
    }
}

/// `v` from `lo` up to `hi` is `word`, but for the case of its letters.
fn is_word(v: &Vec<char>, lo: usize, hi: usize, word: &str) -> (r: bool)
    requires
        lo <= hi <= v@.len(),
    ensures
        r == (lowered(v@.subrange(lo as int, hi as int)) == word@),
{
    let n: usize = word.unicode_len();
    if hi - lo != n {
        return false;
    }
    let ghost text = lowered(v@.subrange(lo as int, hi as int));
    let mut i: usize = 0;
    while i < n
        invariant
            i <= n,
            n == word@.len(),
            n == hi - lo,
            lo <= hi <= v@.len(),
            text == lowered(v@.subrange(lo as int, hi as int)),
            forall|k: int| 0 <= k < i ==> text[k] == word@[k],
        decreases n - i,
    {
        if lower_char(v[lo + i]) != word.get_char(i) {
            return false;
        }
        i = i + 1;
    }
    assert(text =~= word@);
    true
}

impl EncodingFormat {
    /// The format that a file extension asks for: `jpeg` or `jpg`, `png`,
    /// `ppm`, in any case and with white space around it.
    pub fn from_extension(extension: &str) -> (r: Option<EncodingFormat>)
        ensures
            r == extension_format(extension@),
    {
        let v = chars_of(extension);
        let (lo, hi) = trim_bounds(&v);
        if is_word(&v, lo, hi, "jpeg") || is_word(&v, lo, hi, "jpg") {
            Some(EncodingFormat::Jpg)
        } else if is_word(&v, lo, hi, "png") {
            Some(EncodingFormat::Png)
        } else if is_word(&v, lo, hi, "ppm") {
            Some(EncodingFormat::Ppm)
        } else {
            None
        }
    }

    /// The end of the name of a file in this format.
    pub open spec fn spec_file_suffix(self) -> Seq<char> {
        match self {
            EncodingFormat::Png => "-wayshot.png"@,
            EncodingFormat::Jpg => "-wayshot.jpg"@,
            EncodingFormat::Ppm => "-wayshot.ppm"@,
        }
    }

    /// The end of the name of a file in this format.
    pub fn file_suffix(self) -> (r: &'static str)
        ensures
            r@ == self.spec_file_suffix(),
    {
        match self {
            EncodingFormat::Png => "-wayshot.png",
            EncodingFormat::Jpg => "-wayshot.jpg",
            EncodingFormat::Ppm => "-wayshot.ppm",
        }
    }
}

/// The name of the file that a picture taken at `seconds` after the epoch
/// goes to when none is given: the seconds in decimal, then `-wayshot.`
/// and the extension of the format.
pub fn default_file_name(seconds: u64, format: EncodingFormat) -> (name: String)
    ensures
        name@ == decimal_digits(seconds as nat) + format.spec_file_suffix(),
{
    let mut name = String::new();
    append_decimal(&mut name, seconds);
    name.append(format.file_suffix());
    name
}

} // verus!
