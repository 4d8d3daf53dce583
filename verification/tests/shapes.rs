use drafftink::shapes::{
    generate_seed, FillPattern, FontFamily, FontWeight, Group, Image, ImageFormat, PathStyle,
    SerializableColor, Shape, Sloppiness, StrokeStyle, Text,
};

fn element(label: &'static str) -> Shape<&'static str> {
    Shape::new_element(label)
}

#[test]
fn test_group_creation() {
    let group = Group::new(vec![element("rect1"), element("rect2")]);
    assert_eq!(group.children().len(), 2);
}

#[test]
fn test_ungroup() {
    let group = Group::new(vec![element("rect1"), element("rect2")]);
    let children = group.ungroup();
    assert_eq!(children.len(), 2);
}

#[test]
fn group_lists_and_finds_nested_ids() {
    let r1 = element("rect1");
    let r2 = element("rect2");
    let (i1, i2) = (r1.id(), r2.id());
    let inner = Group::new(vec![r1]);
    let inner_id = inner.id();
    let outer = Group::new(vec![Shape::Group(inner), r2]);
    assert_eq!(outer.all_shape_ids(), vec![outer.id(), inner_id, i1, i2]);
    assert_eq!(outer.find_shape(i1).map(|s| s.id()), Some(i1));
    assert_eq!(outer.find_shape(inner_id).map(|s| s.is_group()), Some(true));
    assert_eq!(outer.find_shape(i2).map(|s| s.id()), Some(i2));
    assert!(outer.find_shape(outer.id()).is_none());
    assert!(outer.find_shape(42).is_none());
}

#[test]
fn group_with_id_keeps_id() {
    let g: Group<u8> = Group::with_id(99, vec![]);
    assert_eq!(g.id(), 99);
    assert_eq!(g.all_shape_ids(), vec![99]);
}

#[test]
fn fresh_ids_are_version_4() {
    let s = element("x");
    let id = s.id();
    assert_eq!((id >> 76) & 0xF, 4);
    assert_eq!((id >> 62) & 0x3, 2);
    let mut t = element("y");
    let before = t.id();
    t.regenerate_id();
    assert_ne!(t.id(), before);
}

#[test]
fn cloned_shape_keeps_ids() {
    let g = Shape::Group(Group::new(vec![element("a"), element("b")]));
    let c = g.clone();
    assert_eq!(c.id(), g.id());
    let ids: Vec<u128> = c.as_group().unwrap().children().iter().map(|s| s.id()).collect();
    let orig: Vec<u128> = g.as_group().unwrap().children().iter().map(|s| s.id()).collect();
    assert_eq!(ids, orig);
}

#[test]
fn test_image_creation() {
    let png_data = [0x89, 0x50, 0x4E, 0x47, 0x0D, 0x0A, 0x1A, 0x0A];

    let format = ImageFormat::from_magic_bytes(&png_data);
    assert_eq!(format, Some(ImageFormat::Png));
}

#[test]
fn test_format_detection() {
    assert_eq!(ImageFormat::from_extension("png"), Some(ImageFormat::Png));
    assert_eq!(ImageFormat::from_extension("PNG"), Some(ImageFormat::Png));
    assert_eq!(ImageFormat::from_extension("jpg"), Some(ImageFormat::Jpeg));
    assert_eq!(ImageFormat::from_extension("jpeg"), Some(ImageFormat::Jpeg));
    assert_eq!(ImageFormat::from_extension("webp"), Some(ImageFormat::WebP));
    assert_eq!(ImageFormat::from_extension("gif"), None);
}

#[test]
fn magic_bytes_of_jpeg_and_webp() {
    assert_eq!(ImageFormat::from_magic_bytes(&[0xFF, 0xD8, 0xFF, 0xE0]), Some(ImageFormat::Jpeg));
    assert_eq!(
        ImageFormat::from_magic_bytes(b"RIFF\x00\x00\x00\x00WEBPVP8 "),
        Some(ImageFormat::WebP)
    );
    assert_eq!(ImageFormat::from_magic_bytes(b"RIFF\x00\x00\x00\x00WAVE"), None);
    assert_eq!(ImageFormat::from_magic_bytes(&[0x89, 0x50]), None);
    assert_eq!(ImageFormat::from_magic_bytes(&[]), None);
}

#[test]
fn mime_types() {
    assert_eq!(ImageFormat::Png.mime_type(), "image/png");
    assert_eq!(ImageFormat::Jpeg.mime_type(), "image/jpeg");
    assert_eq!(ImageFormat::WebP.mime_type(), "image/webp");
}

#[test]
fn extension_with_mixed_case() {
    assert_eq!(ImageFormat::from_extension("JpEg"), Some(ImageFormat::Jpeg));
    assert_eq!(ImageFormat::from_lowercase_extension("JPG"), None);
    assert_eq!(ImageFormat::from_lowercase_extension("jpg"), Some(ImageFormat::Jpeg));
}

#[test]
fn image_data_roundtrips_through_base64() {
    let data = vec![1u8, 2, 3, 250, 0, 7];
    let img = Image::new(&data, 10, 20, ImageFormat::Png);
    assert_eq!(img.data_base64, "AQID+gAH");
    assert_eq!(img.data(), Some(data));
    assert_eq!(img.data_size(), 6);
    assert_eq!(img.source_width, 10);
    assert_eq!(img.source_height, 20);
}

#[test]
fn image_with_bad_base64_has_no_data() {
    let mut img = Image::new(&[1, 2, 3], 1, 1, ImageFormat::Jpeg);
    img.data_base64 = "not base64!".to_string();
    assert_eq!(img.data(), None);
}

#[test]
fn colors() {
    assert_eq!(SerializableColor::new(1, 2, 3, 4), SerializableColor { r: 1, g: 2, b: 3, a: 4 });
    assert_eq!(SerializableColor::black(), SerializableColor { r: 0, g: 0, b: 0, a: 255 });
    assert_eq!(SerializableColor::white(), SerializableColor { r: 255, g: 255, b: 255, a: 255 });
    assert_eq!(SerializableColor::transparent(), SerializableColor { r: 0, g: 0, b: 0, a: 0 });
}

#[test]
fn sloppiness_cycles_through_four_levels() {
    let s = Sloppiness::Architect;
    assert_eq!(s.next(), Sloppiness::Artist);
    assert_eq!(s.next().next(), Sloppiness::Cartoonist);
    assert_eq!(s.next().next().next(), Sloppiness::Drunk);
    assert_eq!(s.next().next().next().next(), s);
    assert_eq!(Sloppiness::default(), Sloppiness::Artist);
}

#[test]
fn fill_pattern_cycles_through_seven() {
    let mut p = FillPattern::Solid;
    let mut seen = vec![p];
    for _ in 0..6 {
        p = p.next();
        seen.push(p);
    }
    assert_eq!(
        seen,
        vec![
            FillPattern::Solid,
            FillPattern::Hachure,
            FillPattern::ZigZag,
            FillPattern::CrossHatch,
            FillPattern::Dots,
            FillPattern::Dashed,
            FillPattern::ZigZagLine
        ]
    );
    assert_eq!(p.next(), FillPattern::Solid);
    assert_eq!(FillPattern::default(), FillPattern::Solid);
}

#[test]
fn stroke_style_cycles_through_three() {
    assert_eq!(StrokeStyle::Solid.next(), StrokeStyle::Dashed);
    assert_eq!(StrokeStyle::Dashed.next(), StrokeStyle::Dotted);
    assert_eq!(StrokeStyle::Dotted.next(), StrokeStyle::Solid);
    assert_eq!(StrokeStyle::default(), StrokeStyle::Solid);
    assert_eq!(PathStyle::default(), PathStyle::Direct);
}

#[test]
fn seeds_follow_the_counter() {
    let mut counter = 0u32;
    let first = generate_seed(&mut counter);
    assert_eq!(counter, 1);
    assert_eq!(first, 0);
    let second = generate_seed(&mut counter);
    assert_eq!(counter, 2);
    let mut x = 1u32.wrapping_mul(0x9E3779B9);
    x ^= x >> 16;
    x = x.wrapping_mul(0x85EBCA6B);
    x ^= x >> 13;
    x = x.wrapping_mul(0xC2B2AE35);
    x ^= x >> 16;
    assert_eq!(second, x);
    let mut top = u32::MAX;
    generate_seed(&mut top);
    assert_eq!(top, 0);
}

#[test]
fn font_names() {
    assert_eq!(FontFamily::GelPen.name(), "GelPen");
    assert_eq!(FontFamily::NotoSans.name(), "Noto Sans");
    assert_eq!(FontFamily::NotoSans.display_name(), "Noto");
    assert_eq!(FontFamily::GelPenSerif.display_name(), "GelPen Serif");
    assert_eq!(FontFamily::all().len(), 3);
    assert_eq!(FontWeight::Heavy.display_name(), "Heavy");
    assert_eq!(FontWeight::all(), &[FontWeight::Light, FontWeight::Regular, FontWeight::Heavy]);
    assert_eq!(FontFamily::default(), FontFamily::GelPen);
    assert_eq!(FontWeight::default(), FontWeight::Regular);
}

#[test]
fn text_content_and_defaults() {
    let text = Text::new("Hello".to_string());
    assert_eq!(text.content(), "Hello");
    assert_eq!(text.char_colors, vec![None; 5]);
    assert_eq!(text.font_family, FontFamily::GelPen);
    let text = text.with_font_family(FontFamily::NotoSans).with_font_weight(FontWeight::Heavy);
    assert_eq!(text.font_family, FontFamily::NotoSans);
    assert_eq!(text.font_weight, FontWeight::Heavy);
}

#[test]
fn text_color_ranges() {
    let red = SerializableColor::new(255, 0, 0, 255);
    let mut text = Text::new("héllo".to_string());
    text.apply_color_to_range(1, 3, red);
    assert_eq!(text.char_colors, vec![None, Some(red), Some(red), None, None]);
    text.apply_color_to_range(4, 100, red);
    assert_eq!(text.char_colors[4], Some(red));
    text.apply_color_to_range(3, 2, SerializableColor::black());
    assert_eq!(text.char_colors, vec![None, Some(red), Some(red), None, Some(red)]);
}

#[test]
fn text_colors_follow_edits() {
    let red = SerializableColor::new(255, 0, 0, 255);
    let mut text = Text::new("abc".to_string());
    text.apply_color_to_range(0, 3, red);
    text.set_content("abXYc".to_string());
    text.sync_char_colors_after_edit(2, 3);
    assert_eq!(text.char_colors, vec![Some(red), Some(red), None, None, Some(red)]);
    text.set_content("ac".to_string());
    text.sync_char_colors_after_edit(1, 5);
    assert_eq!(text.char_colors, vec![Some(red), Some(red)]);
    text.set_content("acde".to_string());
    text.sync_char_colors_with_content();
    assert_eq!(text.char_colors, vec![Some(red), Some(red), None, None]);
}

#[test]
fn find_shape_mut_changes_nested_shape() {
    let r1 = element("rect1");
    let r2 = element("rect2");
    let i1 = r1.id();
    let inner = Group::new(vec![r1]);
    let mut outer = Group::new(vec![Shape::Group(inner), r2]);
    let outer_id = outer.id();
    if let Some(Shape::Element { data, .. }) = outer.find_shape_mut(i1) {
        *data = "moved";
    }
    assert_eq!(outer.id(), outer_id);
    match outer.find_shape(i1) {
        Some(Shape::Element { data, .. }) => assert_eq!(*data, "moved"),
        _ => panic!("element expected"),
    }
    assert!(outer.find_shape_mut(7).is_none());
    assert_eq!(outer.children().len(), 2);
}

#[test]
fn mutable_group_access() {
    let mut s = Shape::Group(Group::new(vec![element("a")]));
    let gid = s.id();
    if let Some(g) = s.as_group_mut() {
        g.children_mut().push(Shape::new_element("b"));
    }
    assert_eq!(s.id(), gid);
    assert_eq!(s.as_group().unwrap().children().len(), 2);
    let mut e = element("plain");
    assert!(e.as_group_mut().is_none());
}

#[test]
fn successive_seeds_are_distinct() {
    let mut counter: u32 = u32::MAX - 500;
    let mut seen = std::collections::HashSet::new();
    for _ in 0..2000 {
        assert!(seen.insert(generate_seed(&mut counter)));
    }
}

#[test]
fn blank_texts() {
    assert!(Text::new(String::new()).is_blank());
    assert!(Text::new(" \t\n".to_string()).is_blank());
    assert!(!Text::new(" a ".to_string()).is_blank());
}
