use drafftink::excalidraw::{
    from_excalidraw, import_element, import_elements, parse_excalidraw_color, try_from_excalidraw,
    ExcalidrawElement, ExcalidrawError, ImportedKind, JsonPresence,
};
use drafftink::shapes::{PathStyle, SerializableColor, Sloppiness};

fn elem(kind: &str) -> ExcalidrawElement {
    ExcalidrawElement {
        is_deleted: None,
        element_type: Some(kind.to_string()),
        stroke_color: None,
        background_color: None,
        roughness: None,
        seed: None,
        roundness: JsonPresence::Missing,
        elbowed: None,
        point_count: None,
        text: None,
    }
}

#[test]
fn colors_in_all_notations() {
    assert_eq!(parse_excalidraw_color("transparent"), SerializableColor::transparent());
    assert_eq!(parse_excalidraw_color("#fff"), SerializableColor::new(255, 255, 255, 255));
    assert_eq!(parse_excalidraw_color("#1a2"), SerializableColor::new(17, 170, 34, 255));
    assert_eq!(parse_excalidraw_color("#1e1e1e"), SerializableColor::new(30, 30, 30, 255));
    assert_eq!(parse_excalidraw_color("#FF000080"), SerializableColor::new(255, 0, 0, 128));
    assert_eq!(parse_excalidraw_color("# abcdef "), SerializableColor::new(0xab, 0xcd, 0xef, 255));
}

#[test]
fn unreadable_colors() {
    assert_eq!(parse_excalidraw_color("red"), SerializableColor::black());
    assert_eq!(parse_excalidraw_color("#12345"), SerializableColor::black());
    assert_eq!(parse_excalidraw_color(""), SerializableColor::black());
    assert_eq!(parse_excalidraw_color("#zz0000"), SerializableColor::new(0, 0, 0, 255));
    assert_eq!(parse_excalidraw_color("#112233zz"), SerializableColor::new(0x11, 0x22, 0x33, 255));
    assert_eq!(parse_excalidraw_color("#+f+f+f"), SerializableColor::new(15, 15, 15, 255));
    assert_eq!(parse_excalidraw_color("#g0f"), SerializableColor::new(0, 0, 255, 255));
}

#[test]
fn rectangle_and_diamond() {
    let mut e = elem("rectangle");
    e.stroke_color = Some("#ff0000".to_string());
    e.background_color = Some("#00ff00".to_string());
    e.roughness = Some(0);
    e.seed = Some(0x1_0000_0005);
    let r = import_element(&e).unwrap();
    assert_eq!(r.kind, ImportedKind::Rectangle { rounded: false });
    assert_eq!(r.style.stroke_color, SerializableColor::new(255, 0, 0, 255));
    assert_eq!(r.style.fill_color, Some(SerializableColor::new(0, 255, 0, 255)));
    assert_eq!(r.style.sloppiness, Sloppiness::Architect);
    assert_eq!(r.style.seed, 5);

    let mut d = elem("diamond");
    d.roundness = JsonPresence::Null;
    d.background_color = Some("transparent".to_string());
    let r = import_element(&d).unwrap();
    assert_eq!(r.kind, ImportedKind::Rectangle { rounded: true });
    assert_eq!(r.style.fill_color, None);
    assert_eq!(r.style.stroke_color, SerializableColor::black());
    assert_eq!(r.style.sloppiness, Sloppiness::Artist);
    assert_eq!(r.style.seed, 0);
}

#[test]
fn roughness_levels() {
    for (rough, expected) in [(0, Sloppiness::Architect), (1, Sloppiness::Artist), (2, Sloppiness::Cartoonist), (-3, Sloppiness::Cartoonist)] {
        let mut e = elem("ellipse");
        e.roughness = Some(rough);
        assert_eq!(import_element(&e).unwrap().style.sloppiness, expected);
    }
}

#[test]
fn lines_and_arrows_need_two_points() {
    let mut l = elem("line");
    l.point_count = Some(1);
    assert!(import_element(&l).is_none());
    l.point_count = Some(2);
    assert_eq!(import_element(&l).unwrap().kind, ImportedKind::Line(PathStyle::Direct));
    l.roundness = JsonPresence::Present;
    assert_eq!(import_element(&l).unwrap().kind, ImportedKind::Line(PathStyle::Flowing));
    l.roundness = JsonPresence::Null;
    assert_eq!(import_element(&l).unwrap().kind, ImportedKind::Line(PathStyle::Direct));

    let mut a = elem("arrow");
    a.point_count = Some(3);
    a.roundness = JsonPresence::Present;
    assert_eq!(import_element(&a).unwrap().kind, ImportedKind::Arrow(PathStyle::Flowing));
    a.elbowed = Some(true);
    assert_eq!(import_element(&a).unwrap().kind, ImportedKind::Arrow(PathStyle::Angular));
    a.point_count = None;
    assert!(import_element(&a).is_none());
}

#[test]
fn freedraw_text_and_others() {
    let mut f = elem("freedraw");
    f.point_count = Some(0);
    assert!(import_element(&f).is_none());
    f.point_count = Some(1);
    assert_eq!(import_element(&f).unwrap().kind, ImportedKind::Freehand);

    let mut t = elem("text");
    t.text = Some("Hi there".to_string());
    let r = import_element(&t).unwrap();
    assert_eq!(r.kind, ImportedKind::Text);
    assert_eq!(r.text, "Hi there");
    let r = import_element(&elem("text")).unwrap();
    assert_eq!(r.text, "");

    assert!(import_element(&elem("frame")).is_none());
    let mut none = elem("x");
    none.element_type = None;
    assert!(import_element(&none).is_none());
}

#[test]
fn deleted_elements_are_skipped() {
    let mut e = elem("rectangle");
    e.is_deleted = Some(true);
    assert!(import_element(&e).is_none());
    e.is_deleted = Some(false);
    assert!(import_element(&e).is_some());
}

#[test]
fn drawing_keeps_order_and_positions() {
    let mut deleted = elem("ellipse");
    deleted.is_deleted = Some(true);
    let elements = vec![elem("rectangle"), deleted, elem("image"), elem("ellipse"), elem("text")];
    let r = import_elements(&elements);
    let positions: Vec<usize> = r.iter().map(|p| p.0).collect();
    assert_eq!(positions, vec![0, 3, 4]);
    assert_eq!(r[1].1.kind, ImportedKind::Ellipse);
    assert_eq!(r[2].1.kind, ImportedKind::Text);
}

#[test]
fn excalidraw_file_errors() {
    assert!(matches!(from_excalidraw("{not json"), Err(ExcalidrawError::InvalidJson)));
    assert!(matches!(from_excalidraw("{\"type\": \"excalidraw\"}"), Err(ExcalidrawError::MissingElements)));
    assert!(matches!(from_excalidraw("{\"elements\": 3}"), Err(ExcalidrawError::MissingElements)));
    assert!(matches!(try_from_excalidraw("[1, 2]"), Some(Err(ExcalidrawError::MissingElements))));
}

#[test]
fn excalidraw_file_elements() {
    let json = r##"{
        "type": "excalidraw",
        "elements": [
            {"type": "rectangle", "x": 1.5, "strokeColor": "#ff0000", "backgroundColor": "transparent",
             "roughness": 0, "seed": 42, "roundness": {"type": 3}},
            {"type": "ellipse", "isDeleted": true},
            {"type": "text", "text": "hi", "strokeColor": "#00f"},
            {"type": "image"},
            {"type": "line", "points": [[0, 0], [10.5, 2], [3]]}
        ]
    }"##;
    let shapes = from_excalidraw(json).unwrap();
    let positions: Vec<usize> = shapes.iter().map(|(i, _)| *i).collect();
    assert_eq!(positions, vec![0, 2, 4]);
    assert_eq!(shapes[0].1.kind, ImportedKind::Rectangle { rounded: true });
    assert_eq!(shapes[0].1.style.stroke_color, SerializableColor::new(255, 0, 0, 255));
    assert_eq!(shapes[0].1.style.fill_color, None);
    assert_eq!(shapes[0].1.style.sloppiness, Sloppiness::Architect);
    assert_eq!(shapes[0].1.style.seed, 42);
    assert_eq!(shapes[1].1.kind, ImportedKind::Text);
    assert_eq!(shapes[1].1.text, "hi");
    assert_eq!(shapes[1].1.style.stroke_color, SerializableColor::new(0, 0, 255, 255));
    // An unreadable colour (a channel boundary inside a character) is refused.
    assert!(try_from_excalidraw("{\"elements\": [{\"type\": \"rectangle\", \"strokeColor\": \"#a\u{e9}\"}]}").is_none());
    // A deleted element's colour is not read.
    assert!(try_from_excalidraw("{\"elements\": [{\"type\": \"rectangle\", \"isDeleted\": true, \"strokeColor\": \"#a\u{e9}\"}]}")
        .unwrap()
        .unwrap()
        .is_empty());
}
