//! Reading Excalidraw drawings: colour strings and the per-element choices of
//! shape kind and style. Coordinates and sizes stay with the caller.
use vstd::prelude::*;
use vstd::utf8::{encode_utf8, is_continuation_byte};
use crate::shapes::{PathStyle, SerializableColor, Sloppiness};
use crate::text_util::{str_equals, trim_white_space, trimmed};

verus! {

// ---------------------------------------------------------------------------
// Colours
// ---------------------------------------------------------------------------

/// The word `transparent`.
pub open spec fn transparent_word() -> Seq<char> {
    seq!['t', 'r', 'a', 'n', 's', 'p', 'a', 'r', 'e', 'n', 't']
}

/// Value of an ASCII hexadecimal digit (either case).
pub open spec fn hex_digit_value(b: u8) -> Option<u8> {
    if 0x30 <= b <= 0x39 {
        Some((b - 0x30) as u8)
    } else if 0x61 <= b <= 0x66 {
        Some((b - 0x61 + 10) as u8)
    } else if 0x41 <= b <= 0x46 {
        Some((b - 0x41 + 10) as u8)
    } else {
        None
    }
}

/// What `u8::from_str_radix(s, 16)` gives for a text of one or two bytes:
/// the hexadecimal digits' value, a leading `+` allowed before a digit.
pub open spec fn hex_byte_value(s: Seq<u8>) -> Option<u8> {
    if s.len() == 1 {
        hex_digit_value(s[0])
    } else if s.len() == 2 {
        if s[0] == 0x2b {
            hex_digit_value(s[1])
        } else {
            match (hex_digit_value(s[0]), hex_digit_value(s[1])) {
                (Some(h), Some(l)) => Some((h * 16 + l) as u8),
                _ => None,
            }
        }
    } else {
        None
    }
}

/// The channel read from bytes `from..to` of `h`, or `default` when they are
/// not a hexadecimal number.
pub open spec fn channel(h: Seq<u8>, from: int, to: int, default: u8) -> u8 {
    match hex_byte_value(h.subrange(from, to)) {
        Some(v) => v,
        None => default,
    }
}

/// Whether the text starts with `#`.
pub open spec fn is_hex_notation(color: Seq<char>) -> bool {
    color.len() > 0 && color[0] == '#'
}

/// The UTF-8 bytes of what follows the `#`, without surrounding white space.
pub open spec fn hex_part(color: Seq<char>) -> Seq<u8> {
    encode_utf8(trimmed(color.drop_first()))
}

/// Whether the channel boundaries of a hex part of 3, 6 or 8 bytes fall
/// between characters (the digits are then read from whole characters).
pub open spec fn channels_split_cleanly(h: Seq<u8>) -> bool {
    if h.len() == 3 {
        !is_continuation_byte(h[1]) && !is_continuation_byte(h[2])
    } else if h.len() == 6 {
        !is_continuation_byte(h[2]) && !is_continuation_byte(h[4])
    } else if h.len() == 8 {
        !is_continuation_byte(h[2]) && !is_continuation_byte(h[4]) && !is_continuation_byte(h[6])
    } else {
        true
    }
}

/// The texts whose channels can be read: all but a `#` notation whose
/// channels would cut a character in two.
pub open spec fn color_is_readable(color: Seq<char>) -> bool {
    color != transparent_word() && is_hex_notation(color) ==> channels_split_cleanly(
        hex_part(color),
    )
}

/// The colour an Excalidraw colour string denotes: `transparent`; `#rgb`
/// (each digit repeated); `#rrggbb`; `#rrggbbaa`. A channel that is not
/// hexadecimal reads as 0 (alpha as 255); anything else is opaque black.
pub open spec fn excalidraw_color(color: Seq<char>) -> SerializableColor {
    if color == transparent_word() {
        SerializableColor { r: 0, g: 0, b: 0, a: 0 }
    } else if is_hex_notation(color) && hex_part(color).len() == 3 {
        let h = hex_part(color);
        SerializableColor {
            r: (channel(h, 0, 1, 0) * 17) as u8,
            g: (channel(h, 1, 2, 0) * 17) as u8,
            b: (channel(h, 2, 3, 0) * 17) as u8,
            a: 255,
        }
    } else if is_hex_notation(color) && (hex_part(color).len() == 6 || hex_part(color).len()
        == 8) {
        let h = hex_part(color);
        SerializableColor {
            r: channel(h, 0, 2, 0),
            g: channel(h, 2, 4, 0),
            b: channel(h, 4, 6, 0),
            a: if h.len() == 8 {
                channel(h, 6, 8, 255)
            } else {
                255
            },
        }
    } else {
        SerializableColor { r: 0, g: 0, b: 0, a: 255 }
    }
}

/// Value of one byte as a hexadecimal digit.
fn hex_digit(b: u8) -> (r: Option<u8>)
    ensures
        r == hex_digit_value(b),
{
    if 0x30 <= b && b <= 0x39 {
        Some(b - 0x30)
    } else if 0x61 <= b && b <= 0x66 {
        Some(b - 0x61 + 10)
    } else if 0x41 <= b && b <= 0x46 {
        Some(b - 0x41 + 10)
    } else {
        None
    }
}

/// What `u8::from_str_radix(.., 16)` gives for bytes `from..to` (one or two of them).
pub(crate) fn read_hex_byte(h: &[u8], from: usize, to: usize) -> (r: Option<u8>)
    requires
        from < to <= h@.len(),
        to - from <= 2,
    ensures
        r == hex_byte_value(h@.subrange(from as int, to as int)),
{
    let s = Ghost(h@.subrange(from as int, to as int));
    let v = if to - from == 1 {
        hex_digit(h[from])
    } else if h[from] == 0x2b {
        hex_digit(h[from + 1])
    } else {
        match (hex_digit(h[from]), hex_digit(h[from + 1])) {
            (Some(hi), Some(lo)) => {
                assert(hi * 16 + lo < 256);
                Some(hi * 16 + lo)
            },
            _ => None,
        }
    };
    assert(v == hex_byte_value(s@));
    v
}

/// The channel in bytes `from..to` (one or two of them), or `default`.
pub(crate) fn read_channel(h: &[u8], from: usize, to: usize, default: u8) -> (r: u8)
    requires
        from < to <= h@.len(),
        to - from <= 2,
    ensures
        r == channel(h@, from as int, to as int, default),
{
    match read_hex_byte(h, from, to) {
        Some(x) => x,
        None => default,
    }
}

/// Parse an Excalidraw colour string (`transparent`, `#rgb`, `#rrggbb`,
/// `#rrggbbaa`); anything else gives black.
pub fn parse_excalidraw_color(color: &str) -> (c: SerializableColor)
    requires
        color_is_readable(color@),
    ensures
        c == excalidraw_color(color@),
{
    let word = "transparent";
    proof {
        reveal_strlit("transparent");
        assert(word@ =~= transparent_word());
    }
    if str_equals(color, word) {
        return SerializableColor::transparent();
    }
    let n = color.unicode_len();
    if n > 0 && color.get_char(0) == '#' {
        let rest = color.substring_char(1, n);
        proof {
            assert(rest@ =~= color@.drop_first());
        }
        let hex = trim_white_space(rest);
        let h = hex.as_bytes();
        let len = h.len();
        assert(h@ == hex_part(color@));
        if len == 3 {
            let r = read_channel(h, 0, 1, 0);
            let g = read_channel(h, 1, 2, 0);
            let b = read_channel(h, 2, 3, 0);
            proof {
                assert(r < 16 && g < 16 && b < 16) by {
                    assert(hex_byte_value(h@.subrange(0, 1)) == hex_digit_value(h@[0]));
                    assert(hex_byte_value(h@.subrange(1, 2)) == hex_digit_value(h@[1]));
                    assert(hex_byte_value(h@.subrange(2, 3)) == hex_digit_value(h@[2]));
                }
            }
            return SerializableColor::new(r * 17, g * 17, b * 17, 255);
        } else if len == 6 {
            let r = read_channel(h, 0, 2, 0);
            let g = read_channel(h, 2, 4, 0);
            let b = read_channel(h, 4, 6, 0);
            return SerializableColor::new(r, g, b, 255);
        } else if len == 8 {
            let r = read_channel(h, 0, 2, 0);
            let g = read_channel(h, 2, 4, 0);
            let b = read_channel(h, 4, 6, 0);
            let a = read_channel(h, 6, 8, 255);
            return SerializableColor::new(r, g, b, a);
        }
    }
    SerializableColor::black()
}

// ---------------------------------------------------------------------------
// Elements
// ---------------------------------------------------------------------------

/// Whether a JSON key is absent, holds `null`, or holds a value.
#[derive(Debug, Clone, Copy, PartialEq, Eq, Structural)]
pub enum JsonPresence {
    Missing,
    Null,
    Present,
}

/// What the import reads of one Excalidraw element, apart from its geometry.
/// Each field is `None` where the key is missing or of another JSON type.
#[derive(Debug, Clone)]
pub struct ExcalidrawElement {
    /// `isDeleted`.
    pub is_deleted: Option<bool>,
    /// `type`.
    pub element_type: Option<String>,
    /// `strokeColor`.
    pub stroke_color: Option<String>,
    /// `backgroundColor`.
    pub background_color: Option<String>,
    /// `roughness`.
    pub roughness: Option<i64>,
    /// `seed`.
    pub seed: Option<u64>,
    /// `roundness`.
    pub roundness: JsonPresence,
    /// `elbowed`.
    pub elbowed: Option<bool>,
    /// How many entries of `points` are arrays starting with two numbers,
    /// when `points` is an array.
    pub point_count: Option<usize>,
    /// `text`.
    pub text: Option<String>,
}

/// The kind of shape an element becomes.
#[derive(Debug, Clone, Copy, PartialEq, Eq, Structural)]
pub enum ImportedKind {
    /// A rectangle (also for a diamond), with rounded corners when the
    /// element names a roundness.
    Rectangle { rounded: bool },
    Ellipse,
    Freehand,
    Line(PathStyle),
    Arrow(PathStyle),
    Text,
}

/// The style an element's shape gets, apart from widths and opacity.
#[derive(Debug, Clone, Copy, PartialEq, Eq, Structural)]
pub struct ImportedStyle {
    pub stroke_color: SerializableColor,
    pub fill_color: Option<SerializableColor>,
    pub sloppiness: Sloppiness,
    pub seed: u32,
}

/// The shape an element becomes: its kind, its style and, for a text, its
/// content.
#[derive(Debug, Clone)]
pub struct ImportedElement {
    pub kind: ImportedKind,
    pub style: ImportedStyle,
    pub text: String,
}

/// Whether the element is marked deleted (it is then skipped).
pub open spec fn is_deleted(e: ExcalidrawElement) -> bool {
    e.is_deleted == Some(true)
}

/// Excalidraw's roughness levels: 0 is precise, 1 the default, more is sketchy.
pub open spec fn sloppiness_of_roughness(roughness: i64) -> Sloppiness {
    if roughness == 0 {
        Sloppiness::Architect
    } else if roughness == 1 {
        Sloppiness::Artist
    } else {
        Sloppiness::Cartoonist
    }
}

/// Whether the element's colours can be read (see `color_is_readable`).
pub open spec fn colors_are_readable(e: ExcalidrawElement) -> bool {
    &&& (e.stroke_color matches Some(c) ==> color_is_readable(c@))
    &&& (e.background_color matches Some(c) ==> color_is_readable(c@))
}

/// The element's style: its stroke colour (black when missing), its fill (none
/// when the background is missing or `transparent`), the sloppiness of its
/// roughness (1 when missing) and its seed cut to 32 bits (0 when missing).
pub open spec fn style_of(e: ExcalidrawElement) -> ImportedStyle {
    ImportedStyle {
        stroke_color: match e.stroke_color {
            Some(c) => excalidraw_color(c@),
            None => SerializableColor { r: 0, g: 0, b: 0, a: 255 },
        },
        fill_color: match e.background_color {
            Some(c) => if c@ == transparent_word() {
                None
            } else {
                Some(excalidraw_color(c@))
            },
            None => None,
        },
        sloppiness: match e.roughness {
            Some(r) => sloppiness_of_roughness(r),
            None => Sloppiness::Artist,
        },
        seed: match e.seed {
            Some(s) => s as u32,
            None => 0,
        },
    }
}

/// Whether the element has at least `n` points.
pub open spec fn has_points(e: ExcalidrawElement, n: nat) -> bool {
    e.point_count matches Some(c) && c >= n
}

/// The kind of shape the element becomes, if any: rectangles and diamonds,
/// ellipses, free drawings with a point, lines and arrows with two points
/// (flowing when rounded; an elbowed arrow is angular), and texts.
pub open spec fn kind_of(e: ExcalidrawElement) -> Option<ImportedKind> {
    match e.element_type {
        None => None,
        Some(t) => if t@ == "rectangle"@ || t@ == "diamond"@ {
            Some(ImportedKind::Rectangle { rounded: e.roundness != JsonPresence::Missing })
        } else if t@ == "ellipse"@ {
            Some(ImportedKind::Ellipse)
        } else if t@ == "freedraw"@ {
            if has_points(e, 1) {
                Some(ImportedKind::Freehand)
            } else {
                None
            }
        } else if t@ == "line"@ {
            if has_points(e, 2) {
                Some(
                    ImportedKind::Line(
                        if e.roundness == JsonPresence::Present {
                            PathStyle::Flowing
                        } else {
                            PathStyle::Direct
                        },
                    ),
                )
            } else {
                None
            }
        } else if t@ == "arrow"@ {
            if has_points(e, 2) {
                Some(
                    ImportedKind::Arrow(
                        if e.elbowed == Some(true) {
                            PathStyle::Angular
                        } else if e.roundness == JsonPresence::Present {
                            PathStyle::Flowing
                        } else {
                            PathStyle::Direct
                        },
                    ),
                )
            } else {
                None
            }
        } else if t@ == "text"@ {
            Some(ImportedKind::Text)
        } else {
            None
        },
    }
}

/// An arrow that is not elbowed takes the path style that a line with the
/// same roundness takes: it is curved (flowing) exactly when it names a
/// roundness, and straight when its roundness is missing or `null`.
pub proof fn lemma_arrow_path_follows_roundness(arrow: ExcalidrawElement, line: ExcalidrawElement)
    requires
        arrow.element_type matches Some(t) && t@ == "arrow"@,
        line.element_type matches Some(t) && t@ == "line"@,
        has_points(arrow, 2),
        line.point_count == arrow.point_count,
        line.roundness == arrow.roundness,
        arrow.elbowed != Some(true),
    ensures
        kind_of(arrow) matches Some(ImportedKind::Arrow(s)) && kind_of(line) == Some(
            ImportedKind::Line(s),
        ),
        kind_of(arrow) == Some(ImportedKind::Arrow(PathStyle::Flowing)) <==> arrow.roundness
            == JsonPresence::Present,
        arrow.roundness != JsonPresence::Present ==> kind_of(arrow) == Some(
            ImportedKind::Arrow(PathStyle::Direct),
        ),
{
    reveal_strlit("arrow");
    reveal_strlit("line");
    reveal_strlit("rectangle");
    reveal_strlit("diamond");
    reveal_strlit("ellipse");
    reveal_strlit("freedraw");
    assert(forall|w: Seq<char>| w.len() > 0 && w[0] != 'a' ==> w != "arrow"@);
    assert("rectangle"@[0] != 'a' && "diamond"@[0] != 'a' && "ellipse"@[0] != 'a');
    assert("freedraw"@[0] != 'a' && "line"@[0] != 'a');
    assert("line"@ != "rectangle"@ && "line"@ != "diamond"@ && "line"@ != "ellipse"@);
    assert("line"@ != "freedraw"@);
}

/// The element's text, empty when missing.
pub open spec fn text_of(e: ExcalidrawElement) -> Seq<char> {
    match e.text {
        Some(t) => t@,
        None => Seq::empty(),
    }
}

/// The kind of shape an element becomes, if any.
fn element_kind(e: &ExcalidrawElement) -> (k: Option<ImportedKind>)
    ensures
        k == kind_of(*e),
{
    let t = match &e.element_type {
        Some(t) => t.as_str(),
        None => {
            return None;
        },
    };
    if str_equals(t, "rectangle") || str_equals(t, "diamond") {
        Some(ImportedKind::Rectangle { rounded: e.roundness != JsonPresence::Missing })
    } else if str_equals(t, "ellipse") {
        Some(ImportedKind::Ellipse)
    } else if str_equals(t, "freedraw") {
        match e.point_count {
            Some(n) if n >= 1 => Some(ImportedKind::Freehand),
            _ => None,
        }
    } else if str_equals(t, "line") {
        match e.point_count {
            Some(n) if n >= 2 => {
                let style = if e.roundness == JsonPresence::Present {
                    PathStyle::Flowing
                } else {
                    PathStyle::Direct
                };
                Some(ImportedKind::Line(style))
            },
            _ => None,
        }
    } else if str_equals(t, "arrow") {
        match e.point_count {
            Some(n) if n >= 2 => {
                let elbowed = match e.elbowed {
                    Some(b) => b,
                    None => false,
                };
                let style = if elbowed {
                    PathStyle::Angular
                } else if e.roundness == JsonPresence::Present {
                    PathStyle::Flowing
                } else {
                    PathStyle::Direct
                };
                Some(ImportedKind::Arrow(style))
            },
            _ => None,
        }
    } else if str_equals(t, "text") {
        Some(ImportedKind::Text)
    } else {
        None
    }
}

/// The style of an element's shape.
fn element_style(e: &ExcalidrawElement) -> (s: ImportedStyle)
    requires
        colors_are_readable(*e),
    ensures
        s == style_of(*e),
{
    let stroke_color = match &e.stroke_color {
        Some(c) => parse_excalidraw_color(c.as_str()),
        None => SerializableColor::black(),
    };
    let fill_color = match &e.background_color {
        Some(c) => {
            let word = "transparent";
            proof {
                reveal_strlit("transparent");
                assert(word@ =~= transparent_word());
            }
            if str_equals(c.as_str(), word) {
                None
            } else {
                Some(parse_excalidraw_color(c.as_str()))
            }
        },
        None => None,
    };
    let sloppiness = match e.roughness {
        Some(r) => if r == 0 {
            Sloppiness::Architect
        } else if r == 1 {
            Sloppiness::Artist
        } else {
            Sloppiness::Cartoonist
        },
        None => Sloppiness::Artist,
    };
    let seed: u32 = match e.seed {
        Some(s) => s as u32,
        None => 0,
    };
    ImportedStyle { stroke_color, fill_color, sloppiness, seed }
}

/// The shape one Excalidraw element becomes, or `None` when it is deleted or
/// of no kind the canvas draws.
pub fn import_element(e: &ExcalidrawElement) -> (r: Option<ImportedElement>)
    requires
        !is_deleted(*e) ==> colors_are_readable(*e),
    ensures
        match r {
            None => is_deleted(*e) || kind_of(*e) is None,
            Some(x) => {
                &&& !is_deleted(*e)
                &&& kind_of(*e) == Some(x.kind)
                &&& x.style == style_of(*e)
                &&& x.text@ == text_of(*e)
            },
        },
{
    if let Some(true) = e.is_deleted {
        return None;
    }
    let style = element_style(e);
    match element_kind(e) {
        Some(kind) => {
            let text = match &e.text {
                Some(t) => t.clone(),
                None => String::new(),
            };
            Some(ImportedElement { kind, style, text })
        },
        None => None,
    }
}

/// Whether an element yields a shape.
pub open spec fn is_kept(e: ExcalidrawElement) -> bool {
    !is_deleted(e) && kind_of(e) is Some
}

/// The positions among the first `n` elements of those that yield a shape, in
/// order.
pub open spec fn kept_positions(elements: Seq<ExcalidrawElement>, n: nat) -> Seq<int>
    decreases n,
{
    if n == 0 {
        Seq::empty()
    } else {
        let before = kept_positions(elements, (n - 1) as nat);
        if is_kept(elements[n - 1]) {
            before.push(n - 1)
        } else {
            before
        }
    }
}

/// The shapes a drawing's elements become, in drawing order, each with the
/// position of its element: deleted elements and those of no known kind are
/// left out.
pub fn import_elements(elements: &Vec<ExcalidrawElement>) -> (r: Vec<(usize, ImportedElement)>)
    requires
        forall|i: int|
            0 <= i < elements@.len() && !is_deleted(#[trigger] elements@[i]) ==> colors_are_readable(
                elements@[i],
            ),
    ensures
        r@.map_values(|p: (usize, ImportedElement)| p.0 as int) == kept_positions(
            elements@,
            elements@.len(),
        ),
        forall|k: int|
            #![trigger r@[k]]
            0 <= k < r@.len() ==> {
                let e = elements@[r@[k].0 as int];
                &&& kind_of(e) == Some(r@[k].1.kind)
                &&& r@[k].1.style == style_of(e)
                &&& r@[k].1.text@ == text_of(e)
            },
{
    let mut r: Vec<(usize, ImportedElement)> = Vec::new();
    let n = elements.len();
    let mut i: usize = 0;
    while i < n
        invariant
            n == elements@.len(),
            i <= n,
            forall|j: int|
                0 <= j < elements@.len() && !is_deleted(#[trigger] elements@[j])
                    ==> colors_are_readable(elements@[j]),
            r@.map_values(|p: (usize, ImportedElement)| p.0 as int) == kept_positions(
                elements@,
                i as nat,
            ),
            forall|k: int|
                #![trigger r@[k]]
                0 <= k < r@.len() ==> {
                    let e = elements@[r@[k].0 as int];
                    &&& r@[k].0 < i
                    &&& kind_of(e) == Some(r@[k].1.kind)
                    &&& r@[k].1.style == style_of(e)
                    &&& r@[k].1.text@ == text_of(e)
                },
        decreases n - i,
    {
        let ghost before = r@;
        match import_element(&elements[i]) {
            Some(x) => {
                r.push((i, x));
                proof {
                    assert(r@.map_values(|p: (usize, ImportedElement)| p.0 as int) =~= before.map_values(
                        |p: (usize, ImportedElement)| p.0 as int,
                    ).push(i as int));
                }
            },
            None => {},
        }
        i = i + 1;
    }
    r
}


// ---------------------------------------------------------------------------
// The JSON file
// ---------------------------------------------------------------------------

/// A JSON value as the import reads it: numbers by their integer readings
/// (`as_i64`, `as_u64`; the floating-point reading is geometry), objects as
/// their entries.
#[derive(Debug)]
pub enum Json {
    Null,
    Bool(bool),
    Number { signed: Option<i64>, unsigned: Option<u64> },
    Str(String),
    Array(Vec<Json>),
    Object(Vec<(String, Json)>),
}

/// Why an Excalidraw file cannot be imported.
#[derive(Debug, Clone, Copy, PartialEq, Eq, Structural)]
pub enum ExcalidrawError {
    /// The text is not JSON.
    InvalidJson,
    /// The JSON has no `elements` array.
    MissingElements,
}

#[verifier::external_type_specification]
#[verifier::external_body]
pub struct ExJsonValue(serde_json::Value);

/// What `serde_json::from_str` makes of a text, read into [`Json`]: `None`
/// when the text is not JSON.
pub uninterp spec fn parsed_json(text: Seq<char>) -> Option<Json>;

/// A `serde_json::Value` as a [`Json`], variant by variant (numbers through
/// `Number::as_i64` and `Number::as_u64`). Nothing is stated; it serves
/// [`parse_json`].
#[verifier::external_body]
fn json_of(v: serde_json::Value) -> (j: Json) {
    match v {
        serde_json::Value::Null => Json::Null,
        serde_json::Value::Bool(b) => Json::Bool(b),
        serde_json::Value::Number(n) => Json::Number { signed: n.as_i64(), unsigned: n.as_u64() },
        serde_json::Value::String(s) => Json::Str(s),
        serde_json::Value::Array(a) => Json::Array(a.into_iter().map(json_of).collect()),
        serde_json::Value::Object(m) => Json::Object(m.into_iter().map(|(k, x)| (k, json_of(x))).collect()),
    }
}

/// `serde_json::from_str` into a `serde_json::Value`, read into [`Json`].
#[verifier::external_body]
fn parse_json(text: &str) -> (r: Option<Json>)
    ensures
        r == parsed_json(text@),
{
    match serde_json::from_str::<serde_json::Value>(text) {
        Ok(v) => Some(json_of(v)),
        Err(_) => None,
    }
}

/// The value of the first entry named `key`.
pub open spec fn entry_in(entries: Seq<(String, Json)>, key: Seq<char>) -> Option<Json>
    decreases entries.len(),
{
    if entries.len() == 0 {
        None
    } else if entries[0].0@ == key {
        Some(entries[0].1)
    } else {
        entry_in(entries.drop_first(), key)
    }
}

/// The value of an object's entry `key` (`None` for a missing key or a value
/// that is not an object).
pub open spec fn json_field(j: Json, key: Seq<char>) -> Option<Json> {
    match j {
        Json::Object(entries) => entry_in(entries@, key),
        _ => None,
    }
}

/// A boolean value.
pub open spec fn json_bool(v: Option<Json>) -> Option<bool> {
    match v {
        Some(Json::Bool(b)) => Some(b),
        _ => None,
    }
}

/// A string value.
pub open spec fn json_text(v: Option<Json>) -> Option<String> {
    match v {
        Some(Json::Str(s)) => Some(s),
        _ => None,
    }
}

/// A number's reading as an `i64`.
pub open spec fn json_int(v: Option<Json>) -> Option<i64> {
    match v {
        Some(Json::Number { signed, .. }) => signed,
        _ => None,
    }
}

/// A number's reading as a `u64`.
pub open spec fn json_uint(v: Option<Json>) -> Option<u64> {
    match v {
        Some(Json::Number { unsigned, .. }) => unsigned,
        _ => None,
    }
}

/// Whether a key is missing, `null` or holds a value.
pub open spec fn json_presence(v: Option<Json>) -> JsonPresence {
    match v {
        None => JsonPresence::Missing,
        Some(Json::Null) => JsonPresence::Null,
        Some(_) => JsonPresence::Present,
    }
}

/// A point: an array whose first two entries are numbers.
pub open spec fn is_point(p: Json) -> bool {
    match p {
        Json::Array(a) => a@.len() >= 2 && a@[0] is Number && a@[1] is Number,
        _ => false,
    }
}

/// How many of the entries are points.
pub open spec fn count_points(s: Seq<Json>) -> nat
    decreases s.len(),
{
    if s.len() == 0 {
        0
    } else {
        count_points(s.drop_last()) + if is_point(s.last()) {
            1nat
        } else {
            0nat
        }
    }
}

/// The number of points of a `points` array.
pub open spec fn json_point_count(v: Option<Json>) -> Option<usize> {
    match v {
        Some(Json::Array(a)) => Some(count_points(a@) as usize),
        _ => None,
    }
}

/// What the import reads of an element's JSON.
pub open spec fn element_of(j: Json) -> ExcalidrawElement {
    ExcalidrawElement {
        is_deleted: json_bool(json_field(j, "isDeleted"@)),
        element_type: json_text(json_field(j, "type"@)),
        stroke_color: json_text(json_field(j, "strokeColor"@)),
        background_color: json_text(json_field(j, "backgroundColor"@)),
        roughness: json_int(json_field(j, "roughness"@)),
        seed: json_uint(json_field(j, "seed"@)),
        roundness: json_presence(json_field(j, "roundness"@)),
        elbowed: json_bool(json_field(j, "elbowed"@)),
        point_count: json_point_count(json_field(j, "points"@)),
        text: json_text(json_field(j, "text"@)),
    }
}

/// What an Excalidraw file's text gives: `None` when it is not JSON,
/// `Some(None)` when it has no `elements` array, else the elements read.
pub open spec fn excalidraw_input(text: Seq<char>) -> Option<Option<Seq<ExcalidrawElement>>> {
    match parsed_json(text) {
        None => None,
        Some(root) => match json_field(root, "elements"@) {
            Some(Json::Array(es)) => Some(Some(es@.map_values(|e: Json| element_of(e)))),
            _ => Some(None),
        },
    }
}

/// The elements can be imported: those not deleted have readable colours.
pub open spec fn elements_readable(es: Seq<ExcalidrawElement>) -> bool {
    forall|i: int| 0 <= i < es.len() && !is_deleted(#[trigger] es[i]) ==> colors_are_readable(es[i])
}

/// `v` is what importing the elements gives: the positions of those that
/// yield a shape, in order, each with its kind, style and text.
pub open spec fn is_import_of(es: Seq<ExcalidrawElement>, v: Seq<(usize, ImportedElement)>) -> bool {
    &&& v.map_values(|p: (usize, ImportedElement)| p.0 as int) == kept_positions(es, es.len())
    &&& forall|k: int|
        #![trigger v[k]]
        0 <= k < v.len() ==> {
            let e = es[v[k].0 as int];
            &&& kind_of(e) == Some(v[k].1.kind)
            &&& v[k].1.style == style_of(e)
            &&& v[k].1.text@ == text_of(e)
        }
}

/// The entry `key` of a JSON object.
fn field<'a>(j: &'a Json, key: &str) -> (r: Option<&'a Json>)
    ensures
        match r {
            Some(x) => json_field(*j, key@) == Some(*x),
            None => json_field(*j, key@) is None,
        },
{
    match j {
        Json::Object(entries) => {
            assert(*j == Json::Object(*entries));
            let n = entries.len();
            let mut i: usize = 0;
            proof {
                assert(entries@.skip(0) =~= entries@);
            }
            while i < n
                invariant
                    n == entries@.len(),
                    i <= n,
                    *j == Json::Object(*entries),
                    entry_in(entries@.skip(i as int), key@) == entry_in(entries@, key@),
                decreases n - i,
            {
                proof {
                    assert(entries@.skip(i as int).drop_first() =~= entries@.skip(i + 1));
                    assert(entries@.skip(i as int)[0] == entries@[i as int]);
                }
                if str_equals(entries[i].0.as_str(), key) {
                    proof {
                        let t = entries@.skip(i as int);
                        assert(t[0] == entries@[i as int]);
                        assert(entries@[i as int].0@ == key@);
                        assert(entry_in(t, key@) == Some(t[0].1));
                        assert(entry_in(entries@, key@) == Some(entries@[i as int].1));
                        assert(json_field(*j, key@) == entry_in(entries@, key@));
                    }
                    return Some(&entries[i].1);
                }
                i = i + 1;
            }
            proof {
                assert(entries@.skip(n as int) =~= Seq::<(String, Json)>::empty());
            }
            None
        },
        _ => None,
    }
}

/// A string entry.
fn text_field(j: &Json, key: &str) -> (r: Option<String>)
    ensures
        r == json_text(json_field(*j, key@)),
{
    match field(j, key) {
        Some(Json::Str(s)) => Some(s.clone()),
        _ => None,
    }
}

/// A boolean entry.
fn bool_field(j: &Json, key: &str) -> (r: Option<bool>)
    ensures
        r == json_bool(json_field(*j, key@)),
{
    match field(j, key) {
        Some(Json::Bool(b)) => Some(*b),
        _ => None,
    }
}

/// How many entries of an array are points.
fn point_count(a: &Vec<Json>) -> (n: usize)
    ensures
        n == count_points(a@),
{
    let len = a.len();
    let mut n: usize = 0;
    let mut i: usize = 0;
    while i < len
        invariant
            len == a@.len(),
            i <= len,
            n == count_points(a@.take(i as int)),
            n <= i,
        decreases len - i,
    {
        proof {
            assert(a@.take(i + 1).drop_last() =~= a@.take(i as int));
        }
        let is_pt = match &a[i] {
            Json::Array(p) => p.len() >= 2 && matches!(p[0], Json::Number { .. }) && matches!(
                p[1],
                Json::Number { .. }
            ),
            _ => false,
        };
        if is_pt {
            n = n + 1;
        }
        i = i + 1;
    }
    proof {
        assert(a@.take(len as int) =~= a@);
    }
    n
}

/// What the import reads of an element's JSON (see [`element_of`]).
fn read_element(j: &Json) -> (e: ExcalidrawElement)
    ensures
        e == element_of(*j),
{
    let roughness = match field(j, "roughness") {
        Some(Json::Number { signed, .. }) => *signed,
        _ => None,
    };
    let seed = match field(j, "seed") {
        Some(Json::Number { unsigned, .. }) => *unsigned,
        _ => None,
    };
    let roundness = match field(j, "roundness") {
        None => JsonPresence::Missing,
        Some(Json::Null) => JsonPresence::Null,
        Some(_) => JsonPresence::Present,
    };
    let points = match field(j, "points") {
        Some(Json::Array(a)) => Some(point_count(a)),
        _ => None,
    };
    ExcalidrawElement {
        is_deleted: bool_field(j, "isDeleted"),
        element_type: text_field(j, "type"),
        stroke_color: text_field(j, "strokeColor"),
        background_color: text_field(j, "backgroundColor"),
        roughness,
        seed,
        roundness,
        elbowed: bool_field(j, "elbowed"),
        point_count: points,
        text: text_field(j, "text"),
    }
}

/// The elements of a file's JSON: `None` when it is not JSON, `Some(None)`
/// when it has no `elements` array.
fn read_elements(text: &str) -> (r: Option<Option<Vec<ExcalidrawElement>>>)
    ensures
        excalidraw_input(text@) == match r {
            None => None,
            Some(None) => Some(None),
            Some(Some(v)) => Some(Some(v@)),
        },
{
    let root = match parse_json(text) {
        Some(j) => j,
        None => {
            return None;
        },
    };
    let es = match field(&root, "elements") {
        Some(Json::Array(es)) => es,
        _ => {
            return Some(None);
        },
    };
    let n = es.len();
    let mut out: Vec<ExcalidrawElement> = Vec::new();
    let mut i: usize = 0;
    while i < n
        invariant
            n == es@.len(),
            i <= n,
            out@ == es@.take(i as int).map_values(|e: Json| element_of(e)),
        decreases n - i,
    {
        let e = read_element(&es[i]);
        out.push(e);
        proof {
            assert(out@ =~= es@.take(i + 1).map_values(|e: Json| element_of(e)));
        }
        i = i + 1;
    }
    proof {
        assert(es@.take(n as int) =~= es@);
    }
    Some(Some(out))
}

/// Whether a colour string can be read (see [`color_is_readable`]).
fn color_readable(color: &str) -> (b: bool)
    ensures
        b == color_is_readable(color@),
{
    let word = "transparent";
    proof {
        reveal_strlit("transparent");
        assert(word@ =~= transparent_word());
    }
    if str_equals(color, word) {
        return true;
    }
    let n = color.unicode_len();
    if n > 0 && color.get_char(0) == '#' {
        let rest = color.substring_char(1, n);
        proof {
            assert(rest@ =~= color@.drop_first());
        }
        let hex = trim_white_space(rest);
        let h = hex.as_bytes();
        let len = h.len();
        assert(h@ == hex_part(color@));
        if len == 3 {
            !(0x80 <= h[1] && h[1] <= 0xbf) && !(0x80 <= h[2] && h[2] <= 0xbf)
        } else if len == 6 {
            !(0x80 <= h[2] && h[2] <= 0xbf) && !(0x80 <= h[4] && h[4] <= 0xbf)
        } else if len == 8 {
            !(0x80 <= h[2] && h[2] <= 0xbf) && !(0x80 <= h[4] && h[4] <= 0xbf) && !(0x80 <= h[6]
                && h[6] <= 0xbf)
        } else {
            true
        }
    } else {
        true
    }
}

/// Whether the elements can be imported (see [`elements_readable`]).
fn all_readable(es: &Vec<ExcalidrawElement>) -> (b: bool)
    ensures
        b == elements_readable(es@),
{
    let n = es.len();
    let mut i: usize = 0;
    while i < n
        invariant
            n == es@.len(),
            i <= n,
            forall|j: int| 0 <= j < i && !is_deleted(#[trigger] es@[j]) ==> colors_are_readable(es@[j]),
        decreases n - i,
    {
        let e = &es[i];
        let deleted = match e.is_deleted {
            Some(true) => true,
            _ => false,
        };
        if !deleted {
            let stroke_ok = match &e.stroke_color {
                Some(c) => color_readable(c.as_str()),
                None => true,
            };
            let fill_ok = match &e.background_color {
                Some(c) => color_readable(c.as_str()),
                None => true,
            };
            if !(stroke_ok && fill_ok) {
                return false;
            }
        }
        i = i + 1;
    }
    true
}

/// Import the shapes of an Excalidraw file: which elements become shapes,
/// of which kind and style (their geometry is read by the caller).
/// The text must be JSON with an `elements` array; the colours of the
/// elements that are not deleted must be readable.
pub fn from_excalidraw(text: &str) -> (r: Result<Vec<(usize, ImportedElement)>, ExcalidrawError>)
    requires
        excalidraw_input(text@) matches Some(Some(es)) ==> elements_readable(es),
    ensures
        excalidraw_input(text@) is None <==> r == Err::<Vec<(usize, ImportedElement)>, ExcalidrawError>(
            ExcalidrawError::InvalidJson,
        ),
        excalidraw_input(text@) == Some(None::<Seq<ExcalidrawElement>>) <==> r == Err::<
            Vec<(usize, ImportedElement)>,
            ExcalidrawError,
        >(ExcalidrawError::MissingElements),
        excalidraw_input(text@) matches Some(Some(es)) ==> (r matches Ok(v) && is_import_of(es, v@)),
{
    match read_elements(text) {
        None => Err(ExcalidrawError::InvalidJson),
        Some(None) => Err(ExcalidrawError::MissingElements),
        Some(Some(es)) => Ok(import_elements(&es)),
    }
}

/// Import the shapes of an Excalidraw file as [`from_excalidraw`] does, or
/// `None` when an element that is not deleted has a colour that cannot be
/// read (where reading it would cut a character).
pub fn try_from_excalidraw(text: &str) -> (r: Option<Result<Vec<(usize, ImportedElement)>, ExcalidrawError>>)
    ensures
        match excalidraw_input(text@) {
            None => r == Some(Err::<Vec<(usize, ImportedElement)>, ExcalidrawError>(ExcalidrawError::InvalidJson)),
            Some(None) => r == Some(Err::<Vec<(usize, ImportedElement)>, ExcalidrawError>(
                ExcalidrawError::MissingElements,
            )),
            Some(Some(es)) => if elements_readable(es) {
                r matches Some(Ok(v)) && is_import_of(es, v@)
            } else {
                r is None
            },
        },
{
    match read_elements(text) {
        None => Some(Err(ExcalidrawError::InvalidJson)),
        Some(None) => Some(Err(ExcalidrawError::MissingElements)),
        Some(Some(es)) => {
            if all_readable(&es) {
                Some(Ok(import_elements(&es)))
            } else {
                None
            }
        },
    }
}
} // verus!
