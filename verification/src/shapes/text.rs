//! Text shapes: fonts, content and per-character colors.
use vstd::prelude::*;
use super::{new_shape_id, is_v4_uuid, SerializableColor, ShapeId};

verus! {

/// Font family options.
#[derive(Debug, Clone, Copy, PartialEq, Eq, Structural)]
pub enum FontFamily {
    /// GelPen hand-drawn style font (default).
    GelPen,
    /// Noto Sans clean sans-serif font.
    NotoSans,
    /// GelPen Serif handwritten font.
    GelPenSerif,
}

impl Default for FontFamily {
    fn default() -> (f: Self)
        ensures
            f == FontFamily::GelPen,
    {
        FontFamily::GelPen
    }
}

impl FontFamily {
    /// Get the font family name as used by the renderer.
    pub fn name(&self) -> (s: &'static str)
        ensures
            s@ == match *self {
                FontFamily::GelPen => "GelPen"@,
                FontFamily::NotoSans => "Noto Sans"@,
                FontFamily::GelPenSerif => "GelPen Serif"@,
            },
    {
        match self {
            FontFamily::GelPen => "GelPen",
            FontFamily::NotoSans => "Noto Sans",
            FontFamily::GelPenSerif => "GelPen Serif",
        }
    }

    /// Get display name for UI.
    pub fn display_name(&self) -> (s: &'static str)
        ensures
            s@ == match *self {
                FontFamily::GelPen => "GelPen"@,
                FontFamily::NotoSans => "Noto"@,
                FontFamily::GelPenSerif => "GelPen Serif"@,
            },
    {
        match self {
            FontFamily::GelPen => "GelPen",
            FontFamily::NotoSans => "Noto",
            FontFamily::GelPenSerif => "GelPen Serif",
        }
    }

    /// Get all available font families.
    pub fn all() -> (a: &'static [FontFamily])
        ensures
            a@ == seq![FontFamily::GelPen, FontFamily::NotoSans, FontFamily::GelPenSerif],
    {
        &[FontFamily::GelPen, FontFamily::NotoSans, FontFamily::GelPenSerif]
    }
}

/// Font weight options.
#[derive(Debug, Clone, Copy, PartialEq, Eq, Structural)]
pub enum FontWeight {
    /// Light weight.
    Light,
    /// Regular weight (default).
    Regular,
    /// Heavy/Bold weight.
    Heavy,
}

impl Default for FontWeight {
    fn default() -> (w: Self)
        ensures
            w == FontWeight::Regular,
    {
        FontWeight::Regular
    }
}

impl FontWeight {
    /// Get display name for UI.
    pub fn display_name(&self) -> (s: &'static str)
        ensures
            s@ == match *self {
                FontWeight::Light => "Light"@,
                FontWeight::Regular => "Regular"@,
                FontWeight::Heavy => "Heavy"@,
            },
    {
        match self {
            FontWeight::Light => "Light",
            FontWeight::Regular => "Regular",
            FontWeight::Heavy => "Heavy",
        }
    }

    /// Get all available font weights.
    pub fn all() -> (a: &'static [FontWeight])
        ensures
            a@ == seq![FontWeight::Light, FontWeight::Regular, FontWeight::Heavy],
    {
        &[FontWeight::Light, FontWeight::Regular, FontWeight::Heavy]
    }
}

/// `s` made exactly `n` long: cut, or padded with `None`.
pub open spec fn resized(s: Seq<Option<SerializableColor>>, n: nat) -> Seq<Option<SerializableColor>> {
    if n <= s.len() {
        s.take(n as int)
    } else {
        s + Seq::new((n - s.len()) as nat, |i: int| None)
    }
}

/// Per-character colors after coloring the characters `start..end` (clipped to
/// the content) with `color`: one entry per character, the others kept.
pub open spec fn colored_range(
    colors: Seq<Option<SerializableColor>>,
    char_count: nat,
    start: int,
    end: int,
    color: SerializableColor,
) -> Seq<Option<SerializableColor>> {
    let base = resized(colors, char_count);
    Seq::new(
        char_count,
        |i: int|
            if start <= i < end {
                Some(color)
            } else {
                base[i]
            },
    )
}

/// Per-character colors after an edit at character `pos` changed the number of
/// characters from `old_count` to `new_count`: entries for inserted characters
/// (uncolored) are added at `pos`, entries of deleted characters are removed
/// from `pos` on, and the list is then made `new_count` long.
pub open spec fn colors_after_edit(
    colors: Seq<Option<SerializableColor>>,
    pos: int,
    old_count: int,
    new_count: nat,
) -> Seq<Option<SerializableColor>> {
    if new_count == old_count {
        colors
    } else {
        let p = if pos <= colors.len() {
            pos
        } else {
            colors.len() as int
        };
        let edited = if new_count > old_count {
            colors.take(p) + Seq::new((new_count - old_count) as nat, |i: int| None) + colors.skip(p)
        } else {
            let e = p + (old_count - new_count);
            colors.take(p) + colors.skip(
                if e <= colors.len() {
                    e
                } else {
                    colors.len() as int
                },
            )
        };
        resized(edited, new_count)
    }
}

/// Make a color list exactly `n` long, cutting it or padding it with `None`.
fn resize_colors(colors: &mut Vec<Option<SerializableColor>>, n: usize)
    ensures
        final(colors)@ == resized(old(colors)@, n as nat),
{
    if n <= colors.len() {
        colors.truncate(n);
    } else {
        let ghost s0 = colors@;
        while colors.len() < n
            invariant
                s0.len() <= colors@.len() <= n,
                colors@ == s0 + Seq::new((colors@.len() - s0.len()) as nat, |i: int| None::<SerializableColor>),
            decreases n - colors.len(),
        {
            colors.push(None);
            proof {
                assert(colors@ =~= s0 + Seq::new((colors@.len() - s0.len()) as nat, |i: int| None::<SerializableColor>));
            }
        }
    }
}

/// The text part of a text shape: its identifier, content, font and the
/// colors of its characters (its position, size and rotation are geometry and
/// travel with the shape's payload).
#[derive(Debug, Clone)]
pub struct Text {
    /// Identifier of the shape.
    pub id: ShapeId,
    /// The text content.
    pub content: String,
    /// Font family.
    pub font_family: FontFamily,
    /// Font weight.
    pub font_weight: FontWeight,
    /// Per-character colors (one per char, None = use default style color).
    pub char_colors: Vec<Option<SerializableColor>>,
}

impl Text {
    /// Create a new text with default font, a fresh identifier and no character colors.
    pub fn new(content: String) -> (t: Self)
        ensures
            is_v4_uuid(t.id),
            t.content@ == content@,
            t.font_family == FontFamily::GelPen,
            t.font_weight == FontWeight::Regular,
            t.char_colors@ == Seq::new(content@.len(), |i: int| None::<SerializableColor>),
    {
        let char_count = content.as_str().unicode_len();
        let mut char_colors: Vec<Option<SerializableColor>> = Vec::new();
        resize_colors(&mut char_colors, char_count);
        proof {
            assert(char_colors@ =~= Seq::new(content@.len(), |i: int| None::<SerializableColor>));
        }
        Text {
            id: new_shape_id(),
            content,
            font_family: FontFamily::GelPen,
            font_weight: FontWeight::Regular,
            char_colors,
        }
    }

    /// Apply a color to the characters `start_char..end_char` (clipped to the content).
    pub fn apply_color_to_range(&mut self, start_char: usize, end_char: usize, color: SerializableColor)
        ensures
            final(self).id == old(self).id,
            final(self).content == old(self).content,
            final(self).font_family == old(self).font_family,
            final(self).font_weight == old(self).font_weight,
            final(self).char_colors@ == colored_range(
                old(self).char_colors@,
                old(self).content@.len(),
                start_char as int,
                end_char as int,
                color,
            ),
    {
        let char_count = self.content.as_str().unicode_len();
        resize_colors(&mut self.char_colors, char_count);
        let ghost base = self.char_colors@;
        let stop = if end_char < char_count {
            end_char
        } else {
            char_count
        };
        if start_char < stop {
            let mut i = start_char;
            while i < stop
                invariant
                    self.char_colors@.len() == char_count,
                    base.len() == char_count,
                    start_char <= i <= stop,
                    stop <= char_count,
                    self.id == old(self).id,
                    self.content == old(self).content,
                    self.font_family == old(self).font_family,
                    self.font_weight == old(self).font_weight,
                    forall|j: int|
                        0 <= j < char_count ==> #[trigger] self.char_colors@[j] == if start_char <= j
                            < i {
                            Some(color)
                        } else {
                            base[j]
                        },
                decreases stop - i,
            {
                self.char_colors.set(i, Some(color));
                i = i + 1;
            }
        }
        proof {
            let target = colored_range(
                old(self).char_colors@,
                old(self).content@.len(),
                start_char as int,
                end_char as int,
                color,
            );
            assert(base == resized(old(self).char_colors@, old(self).content@.len()));
            assert forall|j: int| 0 <= j < char_count implies self.char_colors@[j] == target[j] by {
            }
            assert(self.char_colors@ =~= target);
        }
    }

    /// Keep one color entry per character after an edit at character
    /// `edit_char_pos` that changed the character count from `old_char_count`.
    pub fn sync_char_colors_after_edit(&mut self, edit_char_pos: usize, old_char_count: usize)
        ensures
            final(self).id == old(self).id,
            final(self).content == old(self).content,
            final(self).font_family == old(self).font_family,
            final(self).font_weight == old(self).font_weight,
            final(self).char_colors@ == colors_after_edit(
                old(self).char_colors@,
                edit_char_pos as int,
                old_char_count as int,
                old(self).content@.len(),
            ),
    {
        let new_char_count = self.content.as_str().unicode_len();
        if new_char_count == old_char_count {
            return;
        }
        let ghost c0 = self.char_colors@;
        let insert_pos = if edit_char_pos < self.char_colors.len() {
            edit_char_pos
        } else {
            self.char_colors.len()
        };
        if new_char_count > old_char_count {
            let inserted = new_char_count - old_char_count;
            let mut k: usize = 0;
            while k < inserted
                invariant
                    k <= inserted,
                    insert_pos <= c0.len(),
                    self.id == old(self).id,
                    self.content == old(self).content,
                    self.font_family == old(self).font_family,
                    self.font_weight == old(self).font_weight,
                    self.char_colors@ == c0.take(insert_pos as int) + Seq::new(
                        k as nat,
                        |i: int| None::<SerializableColor>,
                    ) + c0.skip(insert_pos as int),
                decreases inserted - k,
            {
                self.char_colors.insert(insert_pos, None);
                proof {
                    assert(self.char_colors@ =~= c0.take(insert_pos as int) + Seq::new(
                        (k + 1) as nat,
                        |i: int| None::<SerializableColor>,
                    ) + c0.skip(insert_pos as int));
                }
                k = k + 1;
            }
        } else {
            let deleted = old_char_count - new_char_count;
            let mut k: usize = 0;
            while k < deleted
                invariant
                    k <= deleted,
                    insert_pos <= c0.len(),
                    self.id == old(self).id,
                    self.content == old(self).content,
                    self.font_family == old(self).font_family,
                    self.font_weight == old(self).font_weight,
                    self.char_colors@ == c0.take(insert_pos as int) + c0.skip(
                        if insert_pos + k <= c0.len() {
                            insert_pos + k
                        } else {
                            c0.len() as int
                        },
                    ),
                decreases deleted - k,
            {
                if insert_pos < self.char_colors.len() {
                    self.char_colors.remove(insert_pos);
                }
                proof {
                    let e = if insert_pos + k + 1 <= c0.len() {
                        insert_pos + k + 1
                    } else {
                        c0.len() as int
                    };
                    assert(self.char_colors@ =~= c0.take(insert_pos as int) + c0.skip(e));
                }
                k = k + 1;
            }
        }
        resize_colors(&mut self.char_colors, new_char_count);
    }

    /// Make the color list one entry per character (cutting or padding with None).
    pub fn sync_char_colors_with_content(&mut self)
        ensures
            final(self).id == old(self).id,
            final(self).content == old(self).content,
            final(self).font_family == old(self).font_family,
            final(self).font_weight == old(self).font_weight,
            final(self).char_colors@ == resized(old(self).char_colors@, old(self).content@.len()),
    {
        let char_count = self.content.as_str().unicode_len();
        resize_colors(&mut self.char_colors, char_count);
    }

    /// Set the font family.
    pub fn with_font_family(self, family: FontFamily) -> (t: Self)
        ensures
            t == (Text { font_family: family, ..self }),
    {
        Text { font_family: family, ..self }
    }

    /// Set the font weight.
    pub fn with_font_weight(self, weight: FontWeight) -> (t: Self)
        ensures
            t == (Text { font_weight: weight, ..self }),
    {
        Text { font_weight: weight, ..self }
    }

    /// Set the text content (the per-character colors are left as they are).
    pub fn set_content(&mut self, content: String)
        ensures
            *final(self) == (Text { content, ..*old(self) }),
    {
        self.content = content;
    }

    /// Get the text content.
    pub fn content(&self) -> (s: &str)
        ensures
            s@ == self.content@,
    {
        self.content.as_str()
    }

    /// Whether the text holds only white space (or nothing): such a text is
    /// removed when its editing ends.
    pub fn is_blank(&self) -> (b: bool)
        ensures
            b == (crate::text_util::trimmed(self.content@).len() == 0),
    {
        crate::text_util::trim_white_space(self.content.as_str()).unicode_len() == 0
    }
}

/// Coloring a range and then resyncing with the content changes nothing more:
/// the color list already has one entry per character.
pub proof fn lemma_colored_range_is_synced(
    colors: Seq<Option<SerializableColor>>,
    n: nat,
    start: int,
    end: int,
    color: SerializableColor,
)
    ensures
        colored_range(colors, n, start, end, color).len() == n,
        resized(colored_range(colors, n, start, end, color), n) == colored_range(colors, n, start, end, color),
{
    let c = colored_range(colors, n, start, end, color);
    assert(c.take(n as int) =~= c);
}

/// After any edit the color list has one entry per character.
pub proof fn lemma_colors_after_edit_length(
    colors: Seq<Option<SerializableColor>>,
    pos: int,
    old_count: int,
    new_count: nat,
)
    requires
        colors.len() == old_count,
    ensures
        colors_after_edit(colors, pos, old_count, new_count).len() == new_count,
{
}

} // verus!
