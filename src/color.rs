use vstd::prelude::*;

verus! {

/// Lightness is stored in ten-thousandths: `LIGHT_MAX` stands for 1.0.
pub const LIGHT_MAX: u32 = 10000;

/// Hue angles are stored in hundredths of a degree: `FULL_TURN` stands for 360°.
pub const FULL_TURN: u32 = 36000;

/// Half of a full turn (180°).
pub const HALF_TURN: u32 = 18000;

/// Largest chroma the model admits (1.0; real sRGB colors stay below 0.4).
pub const CHROMA_MAX: u32 = 10000;

/// An 8-bit-per-channel sRGB color. Two colors are equal iff their channels are.
#[derive(Clone, Copy, Debug, PartialEq, Eq, Structural)]
pub struct Color {
    pub r: u8,
    pub g: u8,
    pub b: u8,
}

/// An Oklch value in fixed point: lightness and chroma in ten-thousandths,
/// hue in hundredths of a degree.
#[derive(Clone, Copy, Debug, PartialEq, Eq, Structural)]
pub struct Lch {
    pub l: u32,
    pub c: u32,
    pub h: u32,
}

impl Lch {
    /// Lightness within [0, 1], chroma within [0, 1], hue within [0°, 360°).
    pub open spec fn wf(self) -> bool {
        &&& self.l <= LIGHT_MAX
        &&& self.c <= CHROMA_MAX
        &&& self.h < FULL_TURN
    }

    pub fn new(l: u32, c: u32, h: u32) -> (r: Lch)
        ensures
            r == (Lch { l, c, h }),
    {
        Lch { l, c, h }
    }

    /// Lightness moved by `delta` (ten-thousandths) and clamped to [0, 1];
    /// chroma and hue are kept.
    pub fn shift_lightness(self, delta: i32) -> (r: Lch)
        requires
            self.wf(),
        ensures
            r.wf(),
            r.l == clamp_light(self.l + delta),
            r.c == self.c,
            r.h == self.h,
    {
        let moved: i64 = self.l as i64 + delta as i64;
        let l: u32 = if moved < 0 {
            0
        } else if moved > LIGHT_MAX as i64 {
            LIGHT_MAX
        } else {
            moved as u32
        };
        Lch { l, c: self.c, h: self.h }
    }
}

/// `v` clamped to the lightness range [0, LIGHT_MAX].
pub open spec fn clamp_light(v: int) -> int {
    if v < 0 {
        0
    } else if v > LIGHT_MAX {
        LIGHT_MAX as int
    } else {
        v
    }
}

/// Lowercase hexadecimal digit of `n` (0 to 15).
pub open spec fn hex_digit(n: int) -> char {
    seq!['0', '1', '2', '3', '4', '5', '6', '7', '8', '9', 'a', 'b', 'c', 'd', 'e', 'f'][n]
}

/// Two lowercase hexadecimal digits of a byte, high digit first.
pub open spec fn hex_byte(v: u8) -> Seq<char> {
    seq![hex_digit(v as int / 16), hex_digit(v as int % 16)]
}

/// `#rrggbb` in lowercase.
pub open spec fn hex_text(c: Color) -> Seq<char> {
    seq!['#'] + hex_byte(c.r) + hex_byte(c.g) + hex_byte(c.b)
}

/// The one-character string holding the lowercase hex digit of `n`.
pub(crate) fn hex_digit_str(n: u8) -> (r: &'static str)
    requires
        n < 16,
    ensures
        r@ == seq![hex_digit(n as int)],
{
    let digits = "0123456789abcdef";
    proof {
        reveal_strlit("0123456789abcdef");
    }
    assert(digits@ =~= seq!['0', '1', '2', '3', '4', '5', '6', '7', '8', '9', 'a', 'b', 'c', 'd', 'e', 'f']);
    let d = digits.substring_ascii(n as usize, n as usize + 1);
    assert(d@ =~= seq![hex_digit(n as int)]);
    d
}

/// Appends the two hex digits of `v` to `out`.
fn push_hex_byte(out: &mut String, v: u8)
    ensures
        final(out)@ == old(out)@ + hex_byte(v),
{
    out.append(hex_digit_str(v / 16));
    out.append(hex_digit_str(v % 16));
    assert(final(out)@ =~= old(out)@ + hex_byte(v));
}

impl Color {
    pub fn new(r: u8, g: u8, b: u8) -> (c: Color)
        ensures
            c == (Color { r, g, b }),
    {
        Color { r, g, b }
    }

    /// The color as `#rrggbb`, lowercase, always seven characters.
    pub fn to_hex(&self) -> (s: String)
        ensures
            s@ == hex_text(*self),
            s@.len() == 7,
    {
        let mut s = String::new();
        let hash = "#";
        proof {
            reveal_strlit("#");
        }
        s.append(hash);
        push_hex_byte(&mut s, self.r);
        push_hex_byte(&mut s, self.g);
        push_hex_byte(&mut s, self.b);
        assert(s@ =~= hex_text(*self));
        s
    }
}

/// Decimal digits of `n`, most significant first, without leading zeros.
pub open spec fn decimal(n: nat) -> Seq<char>
    decreases n,
{
    if n < 10 {
        seq![hex_digit(n as int)]
    } else {
        decimal(n / 10) + seq![hex_digit((n % 10) as int)]
    }
}

/// Appends the decimal digits of `v` to `out`.
pub(crate) fn push_decimal(out: &mut String, v: u8)
    ensures
        final(out)@ == old(out)@ + decimal(v as nat),
{
    let ghost n = v as nat;
    if v >= 100 {
        out.append(hex_digit_str(v / 100));
        out.append(hex_digit_str(v / 10 % 10));
        out.append(hex_digit_str(v % 10));
        assert(n / 10 / 10 == n / 100);
        assert(decimal(n / 100) == seq![hex_digit((n / 100) as int)]);
        assert(decimal(n / 10) == decimal(n / 10 / 10) + seq![hex_digit((n / 10 % 10) as int)]);
        assert(decimal(n) == decimal(n / 10) + seq![hex_digit((n % 10) as int)]);
    } else if v >= 10 {
        out.append(hex_digit_str(v / 10));
        out.append(hex_digit_str(v % 10));
        assert(decimal(n / 10) == seq![hex_digit((n / 10) as int)]);
        assert(decimal(n) == decimal(n / 10) + seq![hex_digit((n % 10) as int)]);
    } else {
        out.append(hex_digit_str(v));
        assert(decimal(n) == seq![hex_digit(n as int)]);
    }
    assert(final(out)@ =~= old(out)@ + decimal(v as nat));
}

} // verus!
