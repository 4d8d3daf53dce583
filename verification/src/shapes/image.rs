//! Images: format detection and the stored image data.
use vstd::prelude::*;
use super::{new_shape_id, is_v4_uuid, ShapeId};
use base64::Engine;
use crate::text_util::str_equals;

verus! {

/// Image format for stored image data.
#[derive(Debug, Clone, Copy, PartialEq, Eq, Structural)]
pub enum ImageFormat {
    /// PNG format.
    Png,
    /// JPEG format.
    Jpeg,
    /// WebP format.
    WebP,
}

/// The lower-case form of a string, as `str::to_lowercase` computes it (Unicode rules).
pub uninterp spec fn lowercase(s: Seq<char>) -> Seq<char>;

/// `str::to_lowercase`; its result is named by [`lowercase`].
#[verifier::external_body]
fn to_lowercase(s: &str) -> (r: String)
    ensures
        r@ == lowercase(s@),
{
    s.to_lowercase()
}

/// The format named by a lower-case extension.
pub open spec fn format_of_lowercase_extension(ext: Seq<char>) -> Option<ImageFormat> {
    if ext == "png"@ {
        Some(ImageFormat::Png)
    } else if ext == "jpg"@ || ext == "jpeg"@ {
        Some(ImageFormat::Jpeg)
    } else if ext == "webp"@ {
        Some(ImageFormat::WebP)
    } else {
        None
    }
}

/// The format whose magic bytes start `data`: PNG `89 50 4E 47`, JPEG
/// `FF D8 FF`, WebP `RIFF....WEBP`; nothing for fewer than 4 bytes.
pub open spec fn format_of_magic_bytes(data: Seq<u8>) -> Option<ImageFormat> {
    if data.len() < 4 {
        None
    } else if data[0] == 0x89 && data[1] == 0x50 && data[2] == 0x4E && data[3] == 0x47 {
        Some(ImageFormat::Png)
    } else if data[0] == 0xFF && data[1] == 0xD8 && data[2] == 0xFF {
        Some(ImageFormat::Jpeg)
    } else if data.len() >= 12 && data[0] == 0x52 && data[1] == 0x49 && data[2] == 0x46 && data[3]
        == 0x46 && data[8] == 0x57 && data[9] == 0x45 && data[10] == 0x42 && data[11] == 0x50 {
        Some(ImageFormat::WebP)
    } else {
        None
    }
}

impl ImageFormat {
    /// Get MIME type for this format.
    pub fn mime_type(&self) -> (s: &'static str)
        ensures
            s@ == match *self {
                ImageFormat::Png => "image/png"@,
                ImageFormat::Jpeg => "image/jpeg"@,
                ImageFormat::WebP => "image/webp"@,
            },
    {
        match self {
            ImageFormat::Png => "image/png",
            ImageFormat::Jpeg => "image/jpeg",
            ImageFormat::WebP => "image/webp",
        }
    }

    /// Detect format from an extension that is already in lower case.
    pub fn from_lowercase_extension(ext: &str) -> (f: Option<Self>)
        ensures
            f == format_of_lowercase_extension(ext@),
    {
        if str_equals(ext, "png") {
            Some(ImageFormat::Png)
        } else if str_equals(ext, "jpg") || str_equals(ext, "jpeg") {
            Some(ImageFormat::Jpeg)
        } else if str_equals(ext, "webp") {
            Some(ImageFormat::WebP)
        } else {
            None
        }
    }

    /// Detect format from file extension (case-insensitive).
    pub fn from_extension(ext: &str) -> (f: Option<Self>)
        ensures
            f == format_of_lowercase_extension(lowercase(ext@)),
    {
        let lower = to_lowercase(ext);
        Self::from_lowercase_extension(lower.as_str())
    }

    /// Detect format from magic bytes.
    pub fn from_magic_bytes(data: &[u8]) -> (f: Option<Self>)
        ensures
            f == format_of_magic_bytes(data@),
    {
        if data.len() < 4 {
            return None;
        }
        if data[0] == 0x89 && data[1] == 0x50 && data[2] == 0x4E && data[3] == 0x47 {
            return Some(ImageFormat::Png);
        }
        if data[0] == 0xFF && data[1] == 0xD8 && data[2] == 0xFF {
            return Some(ImageFormat::Jpeg);
        }
        if data.len() >= 12 && data[0] == 0x52 && data[1] == 0x49 && data[2] == 0x46 && data[3]
            == 0x46 && data[8] == 0x57 && data[9] == 0x45 && data[10] == 0x42 && data[11] == 0x50 {
            return Some(ImageFormat::WebP);
        }
        None
    }
}

/// The character of the standard base64 alphabet for a six-bit value.
pub open spec fn base64_digit(v: int) -> char {
    if v < 26 {
        ('A' as int + v) as char
    } else if v < 52 {
        ('a' as int + (v - 26)) as char
    } else if v < 62 {
        ('0' as int + (v - 52)) as char
    } else if v == 62 {
        '+'
    } else {
        '/'
    }
}

/// The standard base64 text (with padding) of some bytes: each group of
/// three bytes gives four characters; a last group of one or two bytes gives
/// two or three characters and `=` up to four.
pub open spec fn base64_encoded(data: Seq<u8>) -> Seq<char>
    decreases data.len(),
{
    if data.len() == 0 {
        seq![]
    } else if data.len() == 1 {
        let a = data[0] as int;
        seq![base64_digit(a / 4), base64_digit((a % 4) * 16), '=', '=']
    } else if data.len() == 2 {
        let a = data[0] as int;
        let b = data[1] as int;
        seq![
            base64_digit(a / 4),
            base64_digit((a % 4) * 16 + b / 16),
            base64_digit((b % 16) * 4),
            '=',
        ]
    } else {
        let a = data[0] as int;
        let b = data[1] as int;
        let c = data[2] as int;
        seq![
            base64_digit(a / 4),
            base64_digit((a % 4) * 16 + b / 16),
            base64_digit((b % 16) * 4 + c / 64),
            base64_digit(c % 64),
        ] + base64_encoded(data.skip(3))
    }
}

/// The bytes that a standard base64 text (with padding) decodes to, if it is valid.
pub uninterp spec fn base64_decoded(text: Seq<char>) -> Option<Seq<u8>>;

/// `base64::engine::general_purpose::STANDARD.encode`: the padded standard
/// base64 text of `data`, which that engine decodes back to `data`.
/// (The engine panics when the encoded length overflows `usize`, hence the bound.)
#[verifier::external_body]
pub(crate) fn encode_base64(data: &[u8]) -> (text: String)
    requires
        data@.len() <= usize::MAX / 4 * 3,
    ensures
        text@ == base64_encoded(data@),
        base64_decoded(text@) == Some(data@),
{
    base64::engine::general_purpose::STANDARD.encode(data)
}

/// `base64::engine::general_purpose::STANDARD.decode`: the decoded bytes, or
/// `None` for text that is not valid padded standard base64.
#[verifier::external_body]
pub(crate) fn decode_base64(text: &str) -> (data: Option<Vec<u8>>)
    ensures
        match data {
            Some(d) => base64_decoded(text@) == Some(d@),
            None => base64_decoded(text@) is None,
        },
{
    base64::engine::general_purpose::STANDARD.decode(text).ok()
}

/// The data part of an image shape: identifier, pixel size of the source, format
/// and the bytes as base64 text (display position and size are geometry and
/// travel with the shape's payload).
#[derive(Debug, Clone)]
pub struct Image {
    /// Identifier of the shape.
    pub id: ShapeId,
    /// Width of the source image in pixels.
    pub source_width: u32,
    /// Height of the source image in pixels.
    pub source_height: u32,
    /// Image format.
    pub format: ImageFormat,
    /// Image data as base64-encoded string (for CRDT compatibility).
    pub data_base64: String,
}

impl Image {
    /// Create a new image from raw image data, with a fresh identifier.
    pub fn new(data: &[u8], source_width: u32, source_height: u32, format: ImageFormat) -> (img: Self)
        requires
            data@.len() <= usize::MAX / 4 * 3,
        ensures
            is_v4_uuid(img.id),
            img.source_width == source_width,
            img.source_height == source_height,
            img.format == format,
            img.data_base64@ == base64_encoded(data@),
            base64_decoded(img.data_base64@) == Some(data@),
    {
        Image {
            id: new_shape_id(),
            source_width,
            source_height,
            format,
            data_base64: encode_base64(data),
        }
    }

    /// Get the raw image data (decoded from base64), if the stored text is valid.
    pub fn data(&self) -> (d: Option<Vec<u8>>)
        ensures
            match d {
                Some(bytes) => base64_decoded(self.data_base64@) == Some(bytes@),
                None => base64_decoded(self.data_base64@) is None,
            },
    {
        decode_base64(self.data_base64.as_str())
    }

    /// Approximate size of the image data in bytes: three quarters of the
    /// length of the base64 text (in bytes), rounded down.
    pub fn data_size(&self) -> (n: usize)
        ensures
            n == (vstd::utf8::encode_utf8(self.data_base64@).len() as usize) * 3 / 4,
    {
        let len = self.data_base64.as_str().len();
        let q = len / 4;
        let r = len % 4;
        proof {
            assert(len * 3 / 4 == q * 3 + r * 3 / 4) by (nonlinear_arith)
                requires
                    q == len / 4,
                    r == len % 4,
            ;
            assert(q * 3 <= len);
        }
        q * 3 + r * 3 / 4
    }
}

} // verus!
