//! Integer codes of the style enums as stored in the CRDT document.
use vstd::prelude::*;
use crate::shapes::{FillPattern, FontFamily, FontWeight, ImageFormat, PathStyle, Sloppiness};

verus! {

/// Code of a sloppiness level: its rank, Architect = 0 to Drunk = 3.
pub open spec fn sloppiness_code(s: Sloppiness) -> i64 {
    match s {
        Sloppiness::Architect => 0,
        Sloppiness::Artist => 1,
        Sloppiness::Cartoonist => 2,
        Sloppiness::Drunk => 3,
    }
}

/// Store a sloppiness level as an integer.
pub fn sloppiness_to_i64(s: Sloppiness) -> (v: i64)
    ensures
        v == sloppiness_code(s),
{
    match s {
        Sloppiness::Architect => 0,
        Sloppiness::Artist => 1,
        Sloppiness::Cartoonist => 2,
        Sloppiness::Drunk => 3,
    }
}

/// The sloppiness level that the code `v` reads back as.
pub open spec fn sloppiness_from_code(v: i64) -> Sloppiness {
    if v == 0 {
        Sloppiness::Architect
    } else if v == 1 {
        Sloppiness::Artist
    } else if v == 2 {
        Sloppiness::Cartoonist
    } else {
        Sloppiness::Drunk
    }
}

/// Read a sloppiness level back; 0, 1, 2 name the first three levels and any
/// other value reads as Drunk.
pub fn i64_to_sloppiness(v: i64) -> (s: Sloppiness)
    ensures
        s == sloppiness_from_code(v),
{
    match v {
        0 => Sloppiness::Architect,
        1 => Sloppiness::Artist,
        2 => Sloppiness::Cartoonist,
        _ => Sloppiness::Drunk,
    }
}

/// Code of a path style: Direct = 0, Flowing = 1, Angular = 2.
pub open spec fn path_style_code(s: PathStyle) -> i64 {
    match s {
        PathStyle::Direct => 0,
        PathStyle::Flowing => 1,
        PathStyle::Angular => 2,
    }
}

/// Store a path style as an integer.
pub fn path_style_to_i64(s: PathStyle) -> (v: i64)
    ensures
        v == path_style_code(s),
{
    match s {
        PathStyle::Direct => 0,
        PathStyle::Flowing => 1,
        PathStyle::Angular => 2,
    }
}

/// The path style that the code `v` reads back as.
pub open spec fn path_style_from_code(v: i64) -> PathStyle {
    if v == 0 {
        PathStyle::Direct
    } else if v == 1 {
        PathStyle::Flowing
    } else {
        PathStyle::Angular
    }
}

/// Read a path style back; 0 and 1 name Direct and Flowing, any other value reads as Angular.
pub fn i64_to_path_style(v: i64) -> (s: PathStyle)
    ensures
        s == path_style_from_code(v),
{
    match v {
        0 => PathStyle::Direct,
        1 => PathStyle::Flowing,
        _ => PathStyle::Angular,
    }
}

/// Code of a font family: GelPen = 0, Noto Sans = 1, GelPen Serif = 2.
pub open spec fn font_family_code(f: FontFamily) -> i64 {
    match f {
        FontFamily::GelPen => 0,
        FontFamily::NotoSans => 1,
        FontFamily::GelPenSerif => 2,
    }
}

/// Store a font family as an integer.
pub fn font_family_to_i64(f: FontFamily) -> (v: i64)
    ensures
        v == font_family_code(f),
{
    match f {
        FontFamily::GelPen => 0,
        FontFamily::NotoSans => 1,
        FontFamily::GelPenSerif => 2,
    }
}

/// The font family that the code `v` reads back as.
pub open spec fn font_family_from_code(v: i64) -> FontFamily {
    if v == 0 {
        FontFamily::GelPen
    } else if v == 1 {
        FontFamily::NotoSans
    } else {
        FontFamily::GelPenSerif
    }
}

/// Read a font family back; 0 and 1 name GelPen and Noto Sans, any other value reads as GelPen Serif.
pub fn i64_to_font_family(v: i64) -> (f: FontFamily)
    ensures
        f == font_family_from_code(v),
{
    match v {
        0 => FontFamily::GelPen,
        1 => FontFamily::NotoSans,
        _ => FontFamily::GelPenSerif,
    }
}

/// Code of a font weight: Light = 0, Regular = 1, Heavy = 2.
pub open spec fn font_weight_code(w: FontWeight) -> i64 {
    match w {
        FontWeight::Light => 0,
        FontWeight::Regular => 1,
        FontWeight::Heavy => 2,
    }
}

/// Store a font weight as an integer.
pub fn font_weight_to_i64(w: FontWeight) -> (v: i64)
    ensures
        v == font_weight_code(w),
{
    match w {
        FontWeight::Light => 0,
        FontWeight::Regular => 1,
        FontWeight::Heavy => 2,
    }
}

/// The font weight that the code `v` reads back as.
pub open spec fn font_weight_from_code(v: i64) -> FontWeight {
    if v == 0 {
        FontWeight::Light
    } else if v == 1 {
        FontWeight::Regular
    } else {
        FontWeight::Heavy
    }
}

/// Read a font weight back; 0 and 1 name Light and Regular, any other value reads as Heavy.
pub fn i64_to_font_weight(v: i64) -> (w: FontWeight)
    ensures
        w == font_weight_from_code(v),
{
    match v {
        0 => FontWeight::Light,
        1 => FontWeight::Regular,
        _ => FontWeight::Heavy,
    }
}

/// Code of an image format: PNG = 0, JPEG = 1, WebP = 2.
pub open spec fn image_format_code(f: ImageFormat) -> i64 {
    match f {
        ImageFormat::Png => 0,
        ImageFormat::Jpeg => 1,
        ImageFormat::WebP => 2,
    }
}

/// Store an image format as an integer.
pub fn image_format_to_i64(f: ImageFormat) -> (v: i64)
    ensures
        v == image_format_code(f),
{
    match f {
        ImageFormat::Png => 0,
        ImageFormat::Jpeg => 1,
        ImageFormat::WebP => 2,
    }
}

/// The image format that the code `v` reads back as.
pub open spec fn image_format_from_code(v: i64) -> ImageFormat {
    if v == 0 {
        ImageFormat::Png
    } else if v == 1 {
        ImageFormat::Jpeg
    } else {
        ImageFormat::WebP
    }
}

/// Read an image format back; 0 and 1 name PNG and JPEG, any other value reads as WebP.
pub fn i64_to_image_format(v: i64) -> (f: ImageFormat)
    ensures
        f == image_format_from_code(v),
{
    match v {
        0 => ImageFormat::Png,
        1 => ImageFormat::Jpeg,
        _ => ImageFormat::WebP,
    }
}

/// Code of a fill pattern: its rank in declaration order, Solid = 0 to ZigZagLine = 6.
pub open spec fn fill_pattern_code(p: FillPattern) -> i64 {
    match p {
        FillPattern::Solid => 0,
        FillPattern::Hachure => 1,
        FillPattern::ZigZag => 2,
        FillPattern::CrossHatch => 3,
        FillPattern::Dots => 4,
        FillPattern::Dashed => 5,
        FillPattern::ZigZagLine => 6,
    }
}

/// Store a fill pattern as an integer.
pub fn fill_pattern_to_i64(p: FillPattern) -> (v: i64)
    ensures
        v == fill_pattern_code(p),
{
    match p {
        FillPattern::Solid => 0,
        FillPattern::Hachure => 1,
        FillPattern::ZigZag => 2,
        FillPattern::CrossHatch => 3,
        FillPattern::Dots => 4,
        FillPattern::Dashed => 5,
        FillPattern::ZigZagLine => 6,
    }
}

/// The fill pattern that the code `v` reads back as.
pub open spec fn fill_pattern_from_code(v: i64) -> FillPattern {
    if v == 0 {
        FillPattern::Solid
    } else if v == 1 {
        FillPattern::Hachure
    } else if v == 2 {
        FillPattern::ZigZag
    } else if v == 3 {
        FillPattern::CrossHatch
    } else if v == 4 {
        FillPattern::Dots
    } else if v == 5 {
        FillPattern::Dashed
    } else {
        FillPattern::ZigZagLine
    }
}

/// Read a fill pattern back; 0 to 5 name the first six patterns, any other
/// value reads as ZigZagLine.
pub fn i64_to_fill_pattern(v: i64) -> (p: FillPattern)
    ensures
        p == fill_pattern_from_code(v),
{
    match v {
        0 => FillPattern::Solid,
        1 => FillPattern::Hachure,
        2 => FillPattern::ZigZag,
        3 => FillPattern::CrossHatch,
        4 => FillPattern::Dots,
        5 => FillPattern::Dashed,
        _ => FillPattern::ZigZagLine,
    }
}

/// Storing a style value and reading it back gives the same value, and every
/// code in range reads back to the value that stores as it.
pub proof fn lemma_codes_roundtrip(
    s: Sloppiness,
    ps: PathStyle,
    ff: FontFamily,
    fw: FontWeight,
    imf: ImageFormat,
    fp: FillPattern,
    v: i64,
)
    ensures
        sloppiness_from_code(sloppiness_code(s)) == s,
        path_style_from_code(path_style_code(ps)) == ps,
        font_family_from_code(font_family_code(ff)) == ff,
        font_weight_from_code(font_weight_code(fw)) == fw,
        image_format_from_code(image_format_code(imf)) == imf,
        fill_pattern_from_code(fill_pattern_code(fp)) == fp,
        0 <= v <= 3 ==> sloppiness_code(sloppiness_from_code(v)) == v,
        0 <= v <= 2 ==> path_style_code(path_style_from_code(v)) == v,
        0 <= v <= 2 ==> font_family_code(font_family_from_code(v)) == v,
        0 <= v <= 2 ==> font_weight_code(font_weight_from_code(v)) == v,
        0 <= v <= 2 ==> image_format_code(image_format_from_code(v)) == v,
        0 <= v <= 6 ==> fill_pattern_code(fill_pattern_from_code(v)) == v,
{
}

} // verus!
