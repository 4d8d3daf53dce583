use drafftink::crdt::convert::{
    fill_pattern_to_i64, font_family_to_i64, font_weight_to_i64, i64_to_fill_pattern,
    i64_to_font_family, i64_to_font_weight, i64_to_image_format, i64_to_path_style,
    i64_to_sloppiness, image_format_to_i64, path_style_to_i64, sloppiness_to_i64,
};
use drafftink::selection::{Corner, Edge, HandleKind};
use drafftink::shapes::{FillPattern, FontFamily, FontWeight, ImageFormat, PathStyle, Sloppiness};
use drafftink::shortcuts::{Shortcut, ShortcutRegistry};
use drafftink::ui::{ColorPopover, PeerInfo};

#[test]
fn crdt_codes_roundtrip() {
    for s in [Sloppiness::Architect, Sloppiness::Artist, Sloppiness::Cartoonist, Sloppiness::Drunk] {
        assert_eq!(i64_to_sloppiness(sloppiness_to_i64(s)), s);
    }
    assert_eq!(sloppiness_to_i64(Sloppiness::Drunk), 3);
    assert_eq!(i64_to_sloppiness(99), Sloppiness::Drunk);
    assert_eq!(i64_to_sloppiness(-1), Sloppiness::Drunk);
    for p in [PathStyle::Direct, PathStyle::Flowing, PathStyle::Angular] {
        assert_eq!(i64_to_path_style(path_style_to_i64(p)), p);
    }
    assert_eq!(i64_to_path_style(7), PathStyle::Angular);
    for f in FontFamily::all() {
        assert_eq!(i64_to_font_family(font_family_to_i64(*f)), *f);
    }
    assert_eq!(font_family_to_i64(FontFamily::NotoSans), 1);
    for w in FontWeight::all() {
        assert_eq!(i64_to_font_weight(font_weight_to_i64(*w)), *w);
    }
    assert_eq!(i64_to_font_weight(5), FontWeight::Heavy);
    for f in [ImageFormat::Png, ImageFormat::Jpeg, ImageFormat::WebP] {
        assert_eq!(i64_to_image_format(image_format_to_i64(f)), f);
    }
    assert_eq!(image_format_to_i64(ImageFormat::WebP), 2);
    let mut p = FillPattern::Solid;
    for _ in 0..7 {
        assert_eq!(i64_to_fill_pattern(fill_pattern_to_i64(p)), p);
        p = p.next();
    }
    assert_eq!(fill_pattern_to_i64(FillPattern::ZigZagLine), 6);
    assert_eq!(i64_to_fill_pattern(-4), FillPattern::ZigZagLine);
}

#[test]
fn shortcut_labels() {
    assert_eq!(Shortcut::new("S", true, false, "Save").format(), "Ctrl+S");
    assert_eq!(Shortcut::new("Z", true, true, "Redo").format(), "Ctrl+Shift+Z");
    assert_eq!(Shortcut::new("Escape", false, false, "Cancel").format(), "Escape");
    assert_eq!(Shortcut::new("X", false, true, "x").format(), "Shift+X");
}

#[test]
fn shortcut_table() {
    let all = ShortcutRegistry::all();
    assert_eq!(all.len(), 18);
    assert_eq!(all[0].format(), "Ctrl+A");
    assert_eq!(all[0].description, "Select all shapes");
    assert_eq!(all[4].format(), "Ctrl+Shift+E");
    assert_eq!(all[17].key, "Shift+Drag");
}

#[test]
fn color_popover_toggles() {
    assert_eq!(ColorPopover::Closed.toggled(ColorPopover::FillFull), ColorPopover::FillFull);
    assert_eq!(ColorPopover::FillFull.toggled(ColorPopover::FillFull), ColorPopover::Closed);
    assert_eq!(ColorPopover::StrokeFull.toggled(ColorPopover::BgFull), ColorPopover::BgFull);
}

#[test]
fn peer_entries() {
    let p = PeerInfo::from_presence("p1".to_string(), None, true);
    assert_eq!(p.color, "#6366f1");
    assert_eq!(p.name, None);
    assert!(p.has_cursor);
    let p = PeerInfo::from_presence("p2".to_string(), Some(("Ann".to_string(), "#ff0000".to_string())), false);
    assert_eq!(p.name.as_deref(), Some("Ann"));
    assert_eq!(p.color, "#ff0000");
    assert_eq!(p.peer_id, "p2");
}

#[test]
fn handle_kinds() {
    let h = HandleKind::Corner(Corner::TopLeft);
    assert_ne!(h, HandleKind::Edge(Edge::Top));
    assert_eq!(HandleKind::Endpoint(1), HandleKind::Endpoint(1));
}

use drafftink::keys::{key_command, tools, KeyCommand, ToolKind};

#[test]
fn ctrl_key_commands() {
    assert_eq!(key_command("a", true, false), Some(KeyCommand::SelectAll));
    assert_eq!(key_command("S", true, false), Some(KeyCommand::Save));
    assert_eq!(key_command("z", true, false), Some(KeyCommand::Undo));
    assert_eq!(key_command("Z", true, true), Some(KeyCommand::Redo));
    assert_eq!(key_command("y", true, false), Some(KeyCommand::Redo));
    assert_eq!(key_command("g", true, true), Some(KeyCommand::Ungroup));
    assert_eq!(key_command("c", true, true), Some(KeyCommand::CopyPng));
    assert_eq!(key_command("c", true, false), Some(KeyCommand::CopyShapes));
    assert_eq!(key_command("e", true, false), Some(KeyCommand::ExportPng));
    assert_eq!(key_command("E", true, true), Some(KeyCommand::CopyPng));
    assert_eq!(key_command("d", true, false), Some(KeyCommand::Duplicate));
    assert_eq!(key_command("q", true, false), None);
    assert_eq!(key_command("Delete", true, false), None);
}

#[test]
fn plain_key_commands() {
    assert_eq!(key_command("v", false, false), Some(KeyCommand::SelectTool(ToolKind::Select)));
    assert_eq!(key_command("1", false, false), Some(KeyCommand::SelectTool(ToolKind::Select)));
    assert_eq!(key_command("R", false, true), Some(KeyCommand::SelectTool(ToolKind::Rectangle)));
    assert_eq!(key_command("7", false, false), Some(KeyCommand::SelectTool(ToolKind::Freehand)));
    assert_eq!(key_command("z", false, false), Some(KeyCommand::SelectTool(ToolKind::LaserPointer)));
    assert_eq!(key_command("Delete", false, false), Some(KeyCommand::DeleteSelected));
    assert_eq!(key_command("Backspace", false, false), Some(KeyCommand::DeleteSelected));
    assert_eq!(key_command("Escape", false, false), Some(KeyCommand::Escape));
    assert_eq!(key_command("3", false, false), None);
    assert_eq!(key_command("vv", false, false), None);
    assert_eq!(key_command("", false, false), None);
}

#[test]
fn toolbar_tools_match_their_keys() {
    let all = tools();
    assert_eq!(all.len(), 12);
    for t in &all {
        let first = &t.shortcut[..1];
        assert_eq!(key_command(first, false, false), Some(KeyCommand::SelectTool(t.kind)));
    }
    assert_eq!(all[6].label, "Draw");
    assert_eq!(all[10].shortcut, "M / 9");
}

use drafftink::shapes::SerializableColor;
use drafftink::ui::{parse_color, parse_cursor_color};

#[test]
fn swatch_colors() {
    assert_eq!(parse_color("#6366f1"), SerializableColor::new(0x63, 0x66, 0xf1, 255));
    assert_eq!(parse_color("#zz0010"), SerializableColor::new(128, 0, 16, 255));
    assert_eq!(parse_color("red"), SerializableColor::new(100, 116, 139, 255));
    assert_eq!(parse_color("#fff"), SerializableColor::new(100, 116, 139, 255));
    assert_eq!(parse_color(" #6366f1"), SerializableColor::new(100, 116, 139, 255));
}

#[test]
fn cursor_colors() {
    assert_eq!(parse_cursor_color(" #3b82f6 "), Some(SerializableColor::new(0x3b, 0x82, 0xf6, 255)));
    assert_eq!(parse_cursor_color("#3b82fg"), None);
    assert_eq!(parse_cursor_color("#3b82f"), None);
    assert_eq!(parse_cursor_color("3b82f6a"), None);
}

#[test]
fn cursor_color_css_forms() {
    assert_eq!(parse_cursor_color("#ff0000"), Some(SerializableColor::new(255, 0, 0, 255)));
    assert_eq!(parse_cursor_color(" #00ff7f "), Some(SerializableColor::new(0, 255, 127, 255)));
    assert_eq!(parse_cursor_color("rgb(255, 0, 0)"), Some(SerializableColor::new(255, 0, 0, 255)));
    assert_eq!(parse_cursor_color("  rgb(12,34 , 56)  "), Some(SerializableColor::new(12, 34, 56, 255)));
    assert_eq!(parse_cursor_color("#ff00"), None);
    assert_eq!(parse_cursor_color("rgb(256, 0, 0)"), None);
    assert_eq!(parse_cursor_color("rgb(1, 2)"), None);
    assert_eq!(parse_cursor_color("rgb(1, 2, 3, 4)"), None);
    assert_eq!(parse_cursor_color("rgb(1, -2, 3)"), None);
    assert_eq!(parse_cursor_color("rgb(, 2, 3)"), None);
    assert_eq!(parse_cursor_color("rgb(0255, 0, 0)"), Some(SerializableColor::new(255, 0, 0, 255)));
}
