//! Plain state behind the user interface: the open color popover and the
//! peers shown in the presence panel.
use vstd::prelude::*;
use vstd::utf8::{encode_utf8, is_continuation_byte};
use crate::excalidraw::{channel, hex_byte_value, read_channel, read_hex_byte};
use crate::shapes::SerializableColor;
use crate::text_util::{trim_white_space, trimmed};

verus! {

/// Which color popover is open.
#[derive(Debug, Clone, Copy, PartialEq, Eq, Structural)]
pub enum ColorPopover {
    /// No popover open.
    Closed,
    /// Full color grid for stroke.
    StrokeFull,
    /// Full color grid for fill.
    FillFull,
    /// Full color grid for background.
    BgFull,
}

impl ColorPopover {
    /// The popover after its button for `target` was clicked: that popover
    /// closes if it was open, and opens (closing any other) if it was not.
    pub fn toggled(self, target: ColorPopover) -> (r: ColorPopover)
        ensures
            r == (if self == target {
                ColorPopover::Closed
            } else {
                target
            }),
    {
        if self == target {
            ColorPopover::Closed
        } else {
            target
        }
    }
}

/// Peer info for UI display.
#[derive(Debug, Clone)]
pub struct PeerInfo {
    /// Peer identifier.
    pub peer_id: String,
    /// User name (if set).
    pub name: Option<String>,
    /// User color (CSS color string).
    pub color: String,
    /// Whether cursor is currently visible.
    pub has_cursor: bool,
}

/// The color shown for a peer that announced none: indigo.
pub open spec fn default_peer_color() -> Seq<char> {
    seq!['#', '6', '3', '6', '6', 'f', '1']
}

impl PeerInfo {
    /// The presence-panel entry of a peer from what it announced: its name
    /// and color if it announced a user, and whether it shows a cursor. A
    /// peer with no announced color is shown in indigo.
    pub fn from_presence(peer_id: String, user: Option<(String, String)>, has_cursor: bool) -> (p:
        PeerInfo)
        ensures
            p.peer_id@ == peer_id@,
            p.has_cursor == has_cursor,
            match user {
                Some((name, color)) => p.name matches Some(n) && n@ == name@ && p.color@ == color@,
                None => p.name is None && p.color@ == default_peer_color(),
            },
    {
        match user {
            Some((name, color)) => PeerInfo { peer_id, name: Some(name), color, has_cursor },
            None => {
                let color = "#6366f1".to_owned();
                proof {
                    reveal_strlit("#6366f1");
                }
                PeerInfo { peer_id, name: None, color, has_cursor }
            },
        }
    }
}

// ---------------------------------------------------------------------------
// Colours of peers and swatches
// ---------------------------------------------------------------------------

/// The colour shown for a colour string that is not `#rrggbb`: slate grey.
pub open spec fn slate() -> SerializableColor {
    SerializableColor { r: 100, g: 116, b: 139, a: 255 }
}

/// The bytes after the `#` of a `#` colour string.
pub open spec fn after_hash(color: Seq<char>) -> Seq<u8> {
    encode_utf8(color.drop_first())
}

/// Whether the text is `#` and six bytes.
pub open spec fn is_six_hex(color: Seq<char>) -> bool {
    color.len() > 0 && color[0] == '#' && after_hash(color).len() == 6
}

/// The colours whose channels can be read: those where the channel
/// boundaries fall between characters.
pub open spec fn swatch_color_is_readable(color: Seq<char>) -> bool {
    is_six_hex(color) ==> !is_continuation_byte(after_hash(color)[2]) && !is_continuation_byte(
        after_hash(color)[4],
    )
}

/// The colour of a `#rrggbb` string, a channel that is not hexadecimal being
/// 128; slate grey for anything else.
pub open spec fn swatch_color(color: Seq<char>) -> SerializableColor {
    if is_six_hex(color) {
        let h = after_hash(color);
        SerializableColor {
            r: channel(h, 0, 2, 128),
            g: channel(h, 2, 4, 128),
            b: channel(h, 4, 6, 128),
            a: 255,
        }
    } else {
        slate()
    }
}

/// Parse a `#rrggbb` colour for display (colour swatches, the presence panel).
pub fn parse_color(color: &str) -> (c: SerializableColor)
    requires
        swatch_color_is_readable(color@),
    ensures
        c == swatch_color(color@),
{
    let n = color.unicode_len();
    if n > 0 && color.get_char(0) == '#' {
        let hex = color.substring_char(1, n);
        proof {
            assert(hex@ =~= color@.drop_first());
        }
        let h = hex.as_bytes();
        if h.len() == 6 {
            let r = read_channel(h, 0, 2, 128);
            let g = read_channel(h, 2, 4, 128);
            let b = read_channel(h, 4, 6, 128);
            return SerializableColor::new(r, g, b, 255);
        }
    }
    SerializableColor::new(100, 116, 139, 255)
}

/// Whether the trimmed text is `#` and six more bytes.
pub open spec fn is_hash_seven(s: Seq<char>) -> bool {
    let t = trimmed(s);
    t.len() > 0 && t[0] == '#' && encode_utf8(t).len() == 7
}

/// The cursor colours whose channels can be read: those where the channel
/// boundaries fall between characters.
pub open spec fn cursor_color_is_readable(s: Seq<char>) -> bool {
    is_hash_seven(s) ==> !is_continuation_byte(encode_utf8(trimmed(s))[3]) && !is_continuation_byte(
        encode_utf8(trimmed(s))[5],
    )
}

/// The colour of a (trimmed) `#rrggbb` string, if its three channels are
/// hexadecimal; otherwise that of an `rgb(r, g, b)` string.
pub open spec fn cursor_color(s: Seq<char>) -> Option<SerializableColor> {
    let b = encode_utf8(trimmed(s));
    if is_hash_seven(s) {
        match (
            hex_byte_value(b.subrange(1, 3)),
            hex_byte_value(b.subrange(3, 5)),
            hex_byte_value(b.subrange(5, 7)),
        ) {
            (Some(r), Some(g), Some(bb)) => Some(SerializableColor { r, g, b: bb, a: 255 }),
            _ => None,
        }
    } else {
        rgb_color(trimmed(s))
    }
}

/// Whether `c` is an ASCII decimal digit.
pub open spec fn is_decimal_digit(c: char) -> bool {
    '0' <= c && c <= '9'
}

/// The value of a string of decimal digits.
pub open spec fn decimal_value(s: Seq<char>) -> int
    decreases s.len(),
{
    if s.len() == 0 {
        0
    } else {
        decimal_value(s.drop_last()) * 10 + (s.last() as int - '0' as int)
    }
}

/// A colour channel written in decimal, with white space around it: at least
/// one digit, only digits, and a value of at most 255.
pub open spec fn decimal_channel(s: Seq<char>) -> Option<u8> {
    let t = trimmed(s);
    if t.len() > 0 && (forall|i: int| 0 <= i < t.len() ==> is_decimal_digit(#[trigger] t[i]))
        && decimal_value(t) <= 255 {
        Some(decimal_value(t) as u8)
    } else {
        None
    }
}

/// The position of the first comma in `s`, or its length when there is none.
pub open spec fn first_comma(s: Seq<char>) -> int
    decreases s.len(),
{
    if s.len() == 0 {
        0
    } else if s[0] == ',' {
        0
    } else {
        1 + first_comma(s.drop_first())
    }
}

/// The colour of an `rgb(r, g, b)` string: the three channels are separated
/// by the only two commas between the brackets.
pub open spec fn rgb_color(t: Seq<char>) -> Option<SerializableColor> {
    if t.len() >= 5 && t[0] == 'r' && t[1] == 'g' && t[2] == 'b' && t[3] == '(' && t.last() == ')' {
        let inner = t.subrange(4, t.len() - 1);
        let c1 = first_comma(inner);
        let rest = inner.skip(c1 + 1);
        let c2 = first_comma(rest);
        let last = rest.skip(c2 + 1);
        if c1 < inner.len() && c2 < rest.len() && first_comma(last) == last.len() {
            match (
                decimal_channel(inner.take(c1)),
                decimal_channel(rest.take(c2)),
                decimal_channel(last),
            ) {
                (Some(r), Some(g), Some(b)) => Some(SerializableColor { r, g, b, a: 255 }),
                _ => None,
            }
        } else {
            None
        }
    } else {
        None
    }
}

/// Decimal values only grow as digits are appended.
proof fn lemma_decimal_prefix(s: Seq<char>, k: int)
    requires
        0 <= k <= s.len(),
        forall|i: int| 0 <= i < s.len() ==> is_decimal_digit(#[trigger] s[i]),
    ensures
        0 <= decimal_value(s.take(k)) <= decimal_value(s),
    decreases s.len(),
{
    if s.len() > 0 {
        let init = s.drop_last();
        if k == s.len() {
            assert(s.take(k) =~= s);
            lemma_decimal_prefix(init, init.len() as int);
            assert(init.take(init.len() as int) =~= init);
            assert(is_decimal_digit(s[s.len() - 1]));
        } else {
            lemma_decimal_prefix(init, k);
            assert(init.take(k) =~= s.take(k));
            lemma_decimal_prefix(init, init.len() as int);
            assert(init.take(init.len() as int) =~= init);
            assert(is_decimal_digit(s[s.len() - 1]));
        }
    } else {
        assert(s.take(k) =~= s);
    }
}

/// The first comma is at `i` when no comma comes before `i` and `i` is a
/// comma or the end.
proof fn lemma_first_comma(s: Seq<char>, i: int)
    requires
        0 <= i <= s.len(),
        forall|j: int| 0 <= j < i ==> s[j] != ',',
        i == s.len() || s[i] == ',',
    ensures
        first_comma(s) == i,
    decreases s.len(),
{
    if s.len() > 0 && i > 0 {
        lemma_first_comma(s.drop_first(), i - 1);
    }
}

/// Read a decimal channel (see [`decimal_channel`]).
fn read_decimal_channel(p: &str) -> (r: Option<u8>)
    ensures
        r == decimal_channel(p@),
{
    let t = trim_white_space(p);
    let n = t.unicode_len();
    if n == 0 {
        return None;
    }
    let mut v: u32 = 0;
    let mut i: usize = 0;
    while i < n
        invariant
            n == t@.len(),
            t@ == trimmed(p@),
            i <= n,
            v == decimal_value(t@.take(i as int)),
            v <= 255,
            forall|j: int| 0 <= j < i ==> is_decimal_digit(#[trigger] t@[j]),
        decreases n - i,
    {
        let c = t.get_char(i);
        if !('0' <= c && c <= '9') {
            return None;
        }
        proof {
            assert(t@.take(i + 1).drop_last() =~= t@.take(i as int));
        }
        let d: u32 = (c as u32) - ('0' as u32);
        v = v * 10 + d;
        if v > 255 {
            proof {
                if forall|j: int| 0 <= j < t@.len() ==> is_decimal_digit(#[trigger] t@[j]) {
                    lemma_decimal_prefix(t@, i + 1);
                }
            }
            return None;
        }
        i = i + 1;
    }
    proof {
        assert(t@.take(n as int) =~= t@);
    }
    Some(v as u8)
}

/// The position of the first comma in `s`, or its length.
fn find_comma(s: &str) -> (k: usize)
    ensures
        k == first_comma(s@),
        k <= s@.len(),
{
    let n = s.unicode_len();
    let mut i: usize = 0;
    while i < n
        invariant
            n == s@.len(),
            i <= n,
            forall|j: int| 0 <= j < i ==> s@[j] != ',',
        decreases n - i,
    {
        if s.get_char(i) == ',' {
            proof {
                lemma_first_comma(s@, i as int);
            }
            return i;
        }
        i = i + 1;
    }
    proof {
        lemma_first_comma(s@, n as int);
    }
    n
}

/// Read an `rgb(r, g, b)` colour (see [`rgb_color`]).
fn read_rgb(t: &str) -> (c: Option<SerializableColor>)
    ensures
        c == rgb_color(t@),
{
    let n = t.unicode_len();
    if n < 5 || t.get_char(0) != 'r' || t.get_char(1) != 'g' || t.get_char(2) != 'b' || t.get_char(
        3,
    ) != '(' || t.get_char(n - 1) != ')' {
        return None;
    }
    let inner = t.substring_char(4, n - 1);
    let c1 = find_comma(inner);
    if c1 >= inner.unicode_len() {
        return None;
    }
    let rest = inner.substring_char(c1 + 1, inner.unicode_len());
    proof {
        assert(rest@ =~= inner@.skip(c1 + 1));
    }
    let c2 = find_comma(rest);
    if c2 >= rest.unicode_len() {
        return None;
    }
    let last = rest.substring_char(c2 + 1, rest.unicode_len());
    proof {
        assert(last@ =~= rest@.skip(c2 + 1));
    }
    if find_comma(last) != last.unicode_len() {
        return None;
    }
    let first = inner.substring_char(0, c1);
    let second = rest.substring_char(0, c2);
    proof {
        assert(first@ =~= inner@.take(c1 as int));
        assert(second@ =~= rest@.take(c2 as int));
    }
    match (read_decimal_channel(first), read_decimal_channel(second), read_decimal_channel(last)) {
        (Some(r), Some(g), Some(b)) => Some(SerializableColor::new(r, g, b, 255)),
        _ => None,
    }
}

/// Parse a peer's CSS colour, `#ff0000` or `rgb(255, 0, 0)`, for drawing its
/// cursor.
pub fn parse_cursor_color(s: &str) -> (c: Option<SerializableColor>)
    requires
        cursor_color_is_readable(s@),
    ensures
        c == cursor_color(s@),
{
    let t = trim_white_space(s);
    if t.unicode_len() > 0 && t.get_char(0) == '#' {
        let b = t.as_bytes();
        if b.len() == 7 {
            let r = read_hex_byte(b, 1, 3);
            let g = read_hex_byte(b, 3, 5);
            let bb = read_hex_byte(b, 5, 7);
            return match (r, g, bb) {
                (Some(r), Some(g), Some(bb)) => Some(SerializableColor::new(r, g, bb, 255)),
                _ => None,
            };
        }
    }
    read_rgb(t)
}

} // verus!
