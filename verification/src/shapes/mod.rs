//! Shape styles and identifiers.
mod group;
pub use group::{
    Group, Shape, find_in, lemma_find_in_nested_ids, nested_ids, passed_over, replaced_found,
    shape_cloned, shapes_cloned, with_id,
};
mod text;
pub use text::{FontFamily, FontWeight, Text};
mod image;
pub use image::{Image, ImageFormat, base64_decoded, base64_encoded};
pub(crate) use image::{decode_base64, encode_base64};
mod line;
pub use line::PathStyle;
use vstd::prelude::*;

verus! {

/// Serializable color representation (RGBA8).
#[derive(Debug, Clone, Copy, PartialEq, Eq, Structural)]
pub struct SerializableColor {
    pub r: u8,
    pub g: u8,
    pub b: u8,
    pub a: u8,
}

impl SerializableColor {
    /// Builds a color from its four channels.
    pub fn new(r: u8, g: u8, b: u8, a: u8) -> (c: Self)
        ensures
            c == (SerializableColor { r, g, b, a }),
    {
        Self { r, g, b, a }
    }

    /// Opaque black.
    pub fn black() -> (c: Self)
        ensures
            c == (SerializableColor { r: 0, g: 0, b: 0, a: 255 }),
    {
        Self::new(0, 0, 0, 255)
    }

    /// Opaque white.
    pub fn white() -> (c: Self)
        ensures
            c == (SerializableColor { r: 255, g: 255, b: 255, a: 255 }),
    {
        Self::new(255, 255, 255, 255)
    }

    /// Fully transparent black.
    pub fn transparent() -> (c: Self)
        ensures
            c == (SerializableColor { r: 0, g: 0, b: 0, a: 0 }),
    {
        Self::new(0, 0, 0, 0)
    }
}


/// Sloppiness level for the hand-drawn effect.
#[derive(Debug, Clone, Copy, PartialEq, Eq, Structural)]
pub enum Sloppiness {
    /// No roughness: clean, precise lines.
    Architect,
    /// Medium roughness: slight hand-drawn feel (the default).
    Artist,
    /// High roughness: very sketchy lines.
    Cartoonist,
    /// Extreme roughness: chaotic strokes.
    Drunk,
}

impl Default for Sloppiness {
    fn default() -> (s: Self)
        ensures
            s == Sloppiness::Artist,
    {
        Sloppiness::Artist
    }
}

impl Sloppiness {
    /// The level that follows `self` in the cycle Architect, Artist, Cartoonist, Drunk.
    pub open spec fn next_spec(self) -> Sloppiness {
        match self {
            Sloppiness::Architect => Sloppiness::Artist,
            Sloppiness::Artist => Sloppiness::Cartoonist,
            Sloppiness::Cartoonist => Sloppiness::Drunk,
            Sloppiness::Drunk => Sloppiness::Architect,
        }
    }

    /// Cycle to the next sloppiness level.
    pub fn next(self) -> (n: Self)
        ensures
            n == self.next_spec(),
    {
        match self {
            Sloppiness::Architect => Sloppiness::Artist,
            Sloppiness::Artist => Sloppiness::Cartoonist,
            Sloppiness::Cartoonist => Sloppiness::Drunk,
            Sloppiness::Drunk => Sloppiness::Architect,
        }
    }
}

/// Cycling the sloppiness level visits all four levels and comes back after four steps.
pub proof fn lemma_sloppiness_cycle(s: Sloppiness)
    ensures
        s.next_spec().next_spec().next_spec().next_spec() == s,
        s.next_spec() != s,
        s.next_spec().next_spec() != s,
        s.next_spec().next_spec().next_spec() != s,
{
}

/// Fill pattern style for shapes.
#[derive(Debug, Clone, Copy, PartialEq, Eq, Structural)]
pub enum FillPattern {
    /// Solid fill color (the default).
    Solid,
    /// Parallel diagonal lines.
    Hachure,
    /// Zigzag pattern.
    ZigZag,
    /// Cross-hatched lines.
    CrossHatch,
    /// Dot pattern.
    Dots,
    /// Dashed lines.
    Dashed,
    /// Zigzag line pattern.
    ZigZagLine,
}

impl Default for FillPattern {
    fn default() -> (p: Self)
        ensures
            p == FillPattern::Solid,
    {
        FillPattern::Solid
    }
}

impl FillPattern {
    /// The pattern that follows `self` in declaration order, wrapping to `Solid`.
    pub open spec fn next_spec(self) -> FillPattern {
        match self {
            FillPattern::Solid => FillPattern::Hachure,
            FillPattern::Hachure => FillPattern::ZigZag,
            FillPattern::ZigZag => FillPattern::CrossHatch,
            FillPattern::CrossHatch => FillPattern::Dots,
            FillPattern::Dots => FillPattern::Dashed,
            FillPattern::Dashed => FillPattern::ZigZagLine,
            FillPattern::ZigZagLine => FillPattern::Solid,
        }
    }

    /// Cycle to the next fill pattern.
    pub fn next(self) -> (n: Self)
        ensures
            n == self.next_spec(),
    {
        match self {
            FillPattern::Solid => FillPattern::Hachure,
            FillPattern::Hachure => FillPattern::ZigZag,
            FillPattern::ZigZag => FillPattern::CrossHatch,
            FillPattern::CrossHatch => FillPattern::Dots,
            FillPattern::Dots => FillPattern::Dashed,
            FillPattern::Dashed => FillPattern::ZigZagLine,
            FillPattern::ZigZagLine => FillPattern::Solid,
        }
    }
}

/// Applying `next` to a fill pattern `n` times.
pub open spec fn fill_pattern_iterate(p: FillPattern, n: nat) -> FillPattern
    decreases n,
{
    if n == 0 {
        p
    } else {
        fill_pattern_iterate(p, (n - 1) as nat).next_spec()
    }
}

/// Cycling the fill pattern returns to the start after exactly seven steps.
pub proof fn lemma_fill_pattern_cycle(p: FillPattern)
    ensures
        fill_pattern_iterate(p, 7) == p,
        forall|n: nat| 0 < n < 7 ==> fill_pattern_iterate(p, n) != p,
{
    reveal_with_fuel(fill_pattern_iterate, 8);
    assert forall|n: nat| 0 < n < 7 implies fill_pattern_iterate(p, n) != p by {
        reveal_with_fuel(fill_pattern_iterate, 8);
        if n == 1 {
        } else if n == 2 {
        } else if n == 3 {
        } else if n == 4 {
        } else if n == 5 {
        } else {
            assert(n == 6);
        }
    }
}

/// Stroke style for lines and arrows.
#[derive(Debug, Clone, Copy, PartialEq, Eq, Structural)]
pub enum StrokeStyle {
    /// Continuous stroke (the default).
    Solid,
    /// Dashed stroke.
    Dashed,
    /// Dotted stroke.
    Dotted,
}

impl Default for StrokeStyle {
    fn default() -> (s: Self)
        ensures
            s == StrokeStyle::Solid,
    {
        StrokeStyle::Solid
    }
}

impl StrokeStyle {
    /// The stroke style that follows `self`: Solid, Dashed, Dotted, then Solid again.
    pub open spec fn next_spec(self) -> StrokeStyle {
        match self {
            StrokeStyle::Solid => StrokeStyle::Dashed,
            StrokeStyle::Dashed => StrokeStyle::Dotted,
            StrokeStyle::Dotted => StrokeStyle::Solid,
        }
    }

    /// Cycle to the next stroke style.
    pub fn next(self) -> (n: Self)
        ensures
            n == self.next_spec(),
    {
        match self {
            StrokeStyle::Solid => StrokeStyle::Dashed,
            StrokeStyle::Dashed => StrokeStyle::Dotted,
            StrokeStyle::Dotted => StrokeStyle::Solid,
        }
    }
}

/// Cycling the stroke style visits the three styles and comes back after three steps.
pub proof fn lemma_stroke_style_cycle(s: StrokeStyle)
    ensures
        s.next_spec().next_spec().next_spec() == s,
        s.next_spec() != s,
        s.next_spec().next_spec() != s,
{
}

/// The mixing step that turns a counter value into a shape seed
/// (multiply by the golden-ratio constant, then xor-shift/multiply rounds).
pub open spec fn seed_mix(counter: u32) -> u32 {
    let x0 = vstd::wrapping::u32_specs::wrapping_mul(counter, 0x9E3779B9u32);
    let x1 = x0 ^ (x0 >> 16u32);
    let x2 = vstd::wrapping::u32_specs::wrapping_mul(x1, 0x85EBCA6Bu32);
    let x3 = x2 ^ (x2 >> 13u32);
    let x4 = vstd::wrapping::u32_specs::wrapping_mul(x3, 0xC2B2AE35u32);
    x4 ^ (x4 >> 16u32)
}

/// Generate the seed for a new shape from the running seed counter.
///
/// The counter is advanced by one (wrapping), and the seed is the mix of
/// the value it had before the call.
pub fn generate_seed(counter: &mut u32) -> (seed: u32)
    ensures
        seed == seed_mix(*old(counter)),
        *final(counter) == vstd::wrapping::u32_specs::wrapping_add(*old(counter), 1),
{
    let c = *counter;
    *counter = c.wrapping_add(1);
    let mut x = c.wrapping_mul(0x9E3779B9u32);
    x = x ^ (x >> 16u32);
    x = x.wrapping_mul(0x85EBCA6Bu32);
    x = x ^ (x >> 13u32);
    x = x.wrapping_mul(0xC2B2AE35u32);
    x ^ (x >> 16u32)
}

/// Multiplying by `c` and then by `inv` gives back `a`, when `c * inv` is one
/// more than a multiple `k` of 2^32.
proof fn lemma_wrapping_mul_undone(a: u32, c: u32, inv: u32, k: int)
    requires
        c as int * inv as int == k * 0x1_0000_0000 + 1,
        k >= 0,
    ensures
        vstd::wrapping::u32_specs::wrapping_mul(vstd::wrapping::u32_specs::wrapping_mul(a, c), inv)
            == a,
{
    let m: int = 0x1_0000_0000;
    let x: int = a as int * c as int;
    vstd::arithmetic::div_mod::lemma_mul_mod_noop_left(x, inv as int, m);
    vstd::arithmetic::mul::lemma_mul_is_associative(a as int, c as int, inv as int);
    assert(x * inv as int == a as int * (k * m + 1));
    assert(a as int * (k * m + 1) == m * (a as int * k) + a as int) by (nonlinear_arith);
    vstd::arithmetic::div_mod::lemma_mod_multiples_vanish(a as int * k, a as int, m);
    assert(a as int % m == a as int);
}

/// The xor-shift by 16 bits loses nothing.
proof fn lemma_xorshift16_injective(a: u32, b: u32)
    by (bit_vector)
    requires
        a ^ (a >> 16u32) == b ^ (b >> 16u32),
    ensures
        a == b,
{
}

/// The xor-shift by 13 bits loses nothing.
proof fn lemma_xorshift13_injective(a: u32, b: u32)
    by (bit_vector)
    requires
        a ^ (a >> 13u32) == b ^ (b >> 13u32),
    ensures
        a == b,
{
}

/// Different counter values give different seeds: every step of the mix
/// (multiplying by an odd constant, xor-shifting) can be undone, so
/// successive calls of [`generate_seed`] give distinct seeds until the
/// counter wraps around.
pub proof fn lemma_seed_mix_injective(a: u32, b: u32)
    requires
        seed_mix(a) == seed_mix(b),
    ensures
        a == b,
{
    let a0 = vstd::wrapping::u32_specs::wrapping_mul(a, 0x9E3779B9u32);
    let a1 = a0 ^ (a0 >> 16u32);
    let a2 = vstd::wrapping::u32_specs::wrapping_mul(a1, 0x85EBCA6Bu32);
    let a3 = a2 ^ (a2 >> 13u32);
    let a4 = vstd::wrapping::u32_specs::wrapping_mul(a3, 0xC2B2AE35u32);
    let b0 = vstd::wrapping::u32_specs::wrapping_mul(b, 0x9E3779B9u32);
    let b1 = b0 ^ (b0 >> 16u32);
    let b2 = vstd::wrapping::u32_specs::wrapping_mul(b1, 0x85EBCA6Bu32);
    let b3 = b2 ^ (b2 >> 13u32);
    let b4 = vstd::wrapping::u32_specs::wrapping_mul(b3, 0xC2B2AE35u32);
    lemma_xorshift16_injective(a4, b4);
    lemma_wrapping_mul_undone(a3, 0xC2B2AE35u32, 0x7ED1B41Du32, 1618177690);
    lemma_wrapping_mul_undone(b3, 0xC2B2AE35u32, 0x7ED1B41Du32, 1618177690);
    lemma_xorshift13_injective(a2, b2);
    lemma_wrapping_mul_undone(a1, 0x85EBCA6Bu32, 0xA5CB9243u32, 1455126516);
    lemma_wrapping_mul_undone(b1, 0x85EBCA6Bu32, 0xA5CB9243u32, 1455126516);
    lemma_xorshift16_injective(a0, b0);
    lemma_wrapping_mul_undone(a, 0x9E3779B9u32, 0x144CBC89u32, 210485888);
    lemma_wrapping_mul_undone(b, 0x9E3779B9u32, 0x144CBC89u32, 210485888);
}


/// Unique identifier of a shape: the 128-bit value of its UUID.
pub type ShapeId = u128;

/// The bits that every version-4 UUID has fixed: version nibble 4 and variant bits `10`.
pub open spec fn is_v4_uuid(id: u128) -> bool {
    id & 0xF000_C000_0000_0000_0000u128 == 0x4000_8000_0000_0000_0000u128
}

/// A fresh random identifier, from `uuid::Uuid::new_v4`.
///
/// The value is random; the only fact stated is what the uuid source fixes
/// for every outcome: the version and variant bits of a version-4 UUID.
#[verifier::external_body]
pub(crate) fn new_shape_id() -> (id: ShapeId)
    ensures
        is_v4_uuid(id),
{
    uuid::Uuid::new_v4().as_u128()
}

/// Lower-case hexadecimal digit for a value below 16.
pub open spec fn hex_digit_lower(n: u128) -> char {
    if n < 10 {
        ((48 + n) as u8) as char
    } else {
        ((87 + n) as u8) as char
    }
}

/// Position of the hexadecimal digit shown at character `i` of the hyphenated form.
pub open spec fn hyphenated_digit_index(i: int) -> int {
    if i < 8 {
        i
    } else if i < 13 {
        i - 1
    } else if i < 18 {
        i - 2
    } else if i < 23 {
        i - 3
    } else {
        i - 4
    }
}

/// The hyphenated lower-case form `xxxxxxxx-xxxx-xxxx-xxxx-xxxxxxxxxxxx` of a UUID:
/// its 32 hexadecimal digits, most significant first, with hyphens at 8, 13, 18 and 23.
pub open spec fn uuid_hyphenated(id: u128) -> Seq<char> {
    Seq::new(
        36,
        |i: int|
            if i == 8 || i == 13 || i == 18 || i == 23 {
                '-'
            } else {
                hex_digit_lower((id >> ((4 * (31 - hyphenated_digit_index(i))) as u128)) & 0xfu128)
            },
    )
}

/// Identifiers whose hyphenated forms agree on the digit shown at character `i`
/// have the same four bits there.
proof fn lemma_uuid_digit(a: u128, b: u128, i: int, shift: u128)
    requires
        uuid_hyphenated(a) == uuid_hyphenated(b),
        0 <= i < 36,
        i != 8 && i != 13 && i != 18 && i != 23,
        shift == (4 * (31 - hyphenated_digit_index(i))) as u128,
    ensures
        (a >> shift) & 0xfu128 == (b >> shift) & 0xfu128,
{
    let x = (a >> shift) & 0xfu128;
    let y = (b >> shift) & 0xfu128;
    assert(x < 16 && y < 16) by (bit_vector)
        requires
            x == (a >> shift) & 0xfu128,
            y == (b >> shift) & 0xfu128,
    ;
    assert(uuid_hyphenated(a)[i] == hex_digit_lower(x));
    assert(uuid_hyphenated(b)[i] == hex_digit_lower(y));
    if x != y {
        if x < 10 && y < 10 {
            assert(((48 + x) as u8) as char != ((48 + y) as u8) as char);
        } else if x >= 10 && y >= 10 {
            assert(((87 + x) as u8) as char != ((87 + y) as u8) as char);
        } else if x < 10 {
            assert(((48 + x) as u8) as char != ((87 + y) as u8) as char);
        } else {
            assert(((87 + x) as u8) as char != ((48 + y) as u8) as char);
        }
    }
}

/// Different identifiers have different hyphenated forms, so the string keys
/// of shapes tell them apart.
pub proof fn lemma_uuid_hyphenated_injective(a: u128, b: u128)
    requires
        uuid_hyphenated(a) == uuid_hyphenated(b),
    ensures
        a == b,
{
    lemma_uuid_digit(a, b, 0, 124u128);
    lemma_uuid_digit(a, b, 1, 120u128);
    lemma_uuid_digit(a, b, 2, 116u128);
    lemma_uuid_digit(a, b, 3, 112u128);
    lemma_uuid_digit(a, b, 4, 108u128);
    lemma_uuid_digit(a, b, 5, 104u128);
    lemma_uuid_digit(a, b, 6, 100u128);
    lemma_uuid_digit(a, b, 7, 96u128);
    lemma_uuid_digit(a, b, 9, 92u128);
    lemma_uuid_digit(a, b, 10, 88u128);
    lemma_uuid_digit(a, b, 11, 84u128);
    lemma_uuid_digit(a, b, 12, 80u128);
    lemma_uuid_digit(a, b, 14, 76u128);
    lemma_uuid_digit(a, b, 15, 72u128);
    lemma_uuid_digit(a, b, 16, 68u128);
    lemma_uuid_digit(a, b, 17, 64u128);
    lemma_uuid_digit(a, b, 19, 60u128);
    lemma_uuid_digit(a, b, 20, 56u128);
    lemma_uuid_digit(a, b, 21, 52u128);
    lemma_uuid_digit(a, b, 22, 48u128);
    lemma_uuid_digit(a, b, 24, 44u128);
    lemma_uuid_digit(a, b, 25, 40u128);
    lemma_uuid_digit(a, b, 26, 36u128);
    lemma_uuid_digit(a, b, 27, 32u128);
    lemma_uuid_digit(a, b, 28, 28u128);
    lemma_uuid_digit(a, b, 29, 24u128);
    lemma_uuid_digit(a, b, 30, 20u128);
    lemma_uuid_digit(a, b, 31, 16u128);
    lemma_uuid_digit(a, b, 32, 12u128);
    lemma_uuid_digit(a, b, 33, 8u128);
    lemma_uuid_digit(a, b, 34, 4u128);
    lemma_uuid_digit(a, b, 35, 0u128);
    assert(a == b) by (bit_vector)
        requires
            (a >> 124u128) & 0xfu128 == (b >> 124u128) & 0xfu128,
            (a >> 120u128) & 0xfu128 == (b >> 120u128) & 0xfu128,
            (a >> 116u128) & 0xfu128 == (b >> 116u128) & 0xfu128,
            (a >> 112u128) & 0xfu128 == (b >> 112u128) & 0xfu128,
            (a >> 108u128) & 0xfu128 == (b >> 108u128) & 0xfu128,
            (a >> 104u128) & 0xfu128 == (b >> 104u128) & 0xfu128,
            (a >> 100u128) & 0xfu128 == (b >> 100u128) & 0xfu128,
            (a >> 96u128) & 0xfu128 == (b >> 96u128) & 0xfu128,
            (a >> 92u128) & 0xfu128 == (b >> 92u128) & 0xfu128,
            (a >> 88u128) & 0xfu128 == (b >> 88u128) & 0xfu128,
            (a >> 84u128) & 0xfu128 == (b >> 84u128) & 0xfu128,
            (a >> 80u128) & 0xfu128 == (b >> 80u128) & 0xfu128,
            (a >> 76u128) & 0xfu128 == (b >> 76u128) & 0xfu128,
            (a >> 72u128) & 0xfu128 == (b >> 72u128) & 0xfu128,
            (a >> 68u128) & 0xfu128 == (b >> 68u128) & 0xfu128,
            (a >> 64u128) & 0xfu128 == (b >> 64u128) & 0xfu128,
            (a >> 60u128) & 0xfu128 == (b >> 60u128) & 0xfu128,
            (a >> 56u128) & 0xfu128 == (b >> 56u128) & 0xfu128,
            (a >> 52u128) & 0xfu128 == (b >> 52u128) & 0xfu128,
            (a >> 48u128) & 0xfu128 == (b >> 48u128) & 0xfu128,
            (a >> 44u128) & 0xfu128 == (b >> 44u128) & 0xfu128,
            (a >> 40u128) & 0xfu128 == (b >> 40u128) & 0xfu128,
            (a >> 36u128) & 0xfu128 == (b >> 36u128) & 0xfu128,
            (a >> 32u128) & 0xfu128 == (b >> 32u128) & 0xfu128,
            (a >> 28u128) & 0xfu128 == (b >> 28u128) & 0xfu128,
            (a >> 24u128) & 0xfu128 == (b >> 24u128) & 0xfu128,
            (a >> 20u128) & 0xfu128 == (b >> 20u128) & 0xfu128,
            (a >> 16u128) & 0xfu128 == (b >> 16u128) & 0xfu128,
            (a >> 12u128) & 0xfu128 == (b >> 12u128) & 0xfu128,
            (a >> 8u128) & 0xfu128 == (b >> 8u128) & 0xfu128,
            (a >> 4u128) & 0xfu128 == (b >> 4u128) & 0xfu128,
            (a >> 0u128) & 0xfu128 == (b >> 0u128) & 0xfu128,
    ;
}

/// The string form of a UUID, through `uuid::Uuid::from_u128` and its `Display`
/// (`to_string`), which the uuid source writes in the hyphenated lower-case form.
#[verifier::external_body]
pub(crate) fn shape_id_to_string(id: ShapeId) -> (s: String)
    ensures
        s@ == uuid_hyphenated(id),
{
    uuid::Uuid::from_u128(id).to_string()
}

} // verus!
