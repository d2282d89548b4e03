//! Radiance values and their canonical text encoding.
//!
//! A color is a triple of fixed-point channels, conceptually in `[0, 1]`
//! after tone mapping but allowed to exceed one transiently while samples
//! accumulate. The text encoding (gamma-2 square root, clamp, scale to
//! `[0, 255]`, three space-separated decimal integers) is stated exactly:
//! it is the output pixel format and must be reproduced bit for bit.

use vstd::prelude::*;
use crate::fixed::{
    fx_div, fx_mul, fx_sqrt, tdiv, div_fx, mul_fx, sqrt_fx, FX_BOUND, FX_ONE, FX_SQRT_MAX,
};

verus! {

/// Floor of `0.999 * FX_ONE`, the upper clamp of the gamma-corrected
/// channel before scaling to an 8-bit value.
pub const GAMMA_CLAMP: i64 = 65470;

/// The mathematical value of a color: its raw channels as unbounded
/// integers.
pub struct C3 {
    pub r: int,
    pub g: int,
    pub b: int,
}

pub open spec fn cadd(a: C3, b: C3) -> C3 {
    C3 { r: a.r + b.r, g: a.g + b.g, b: a.b + b.b }
}

pub open spec fn csub(a: C3, b: C3) -> C3 {
    C3 { r: a.r - b.r, g: a.g - b.g, b: a.b - b.b }
}

pub open spec fn cscale(a: C3, s: int) -> C3 {
    C3 { r: fx_mul(a.r, s), g: fx_mul(a.g, s), b: fx_mul(a.b, s) }
}

pub open spec fn cdivs(a: C3, s: int) -> C3 {
    C3 { r: fx_div(a.r, s), g: fx_div(a.g, s), b: fx_div(a.b, s) }
}

/// Componentwise product: attenuation of one radiance value by another.
pub open spec fn cmul(a: C3, b: C3) -> C3 {
    C3 { r: fx_mul(a.r, b.r), g: fx_mul(a.g, b.g), b: fx_mul(a.b, b.b) }
}

/// Every channel lies in `[0, 1]`.
pub open spec fn in_range3(a: C3) -> bool {
    &&& 0 <= a.r <= FX_ONE
    &&& 0 <= a.g <= FX_ONE
    &&& 0 <= a.b <= FX_ONE
}

/// The largest channel.
pub open spec fn cmax(a: C3) -> int {
    if a.r >= a.g && a.r >= a.b {
        a.r
    } else if a.g >= a.b {
        a.g
    } else {
        a.b
    }
}

/// The highlight-rescaling policy: an in-range color is unchanged, any
/// other is divided by its largest channel, clipping that channel to one
/// while preserving hue.
pub open spec fn correct_spec(a: C3) -> C3 {
    if in_range3(a) {
        a
    } else {
        cdivs(a, cmax(a))
    }
}

/// Rescaling is idempotent on its fixed points: a color already in range
/// comes back unchanged, so applying the policy twice changes nothing.
pub proof fn lemma_correct_color_idempotent(a: C3)
    requires
        in_range3(a),
    ensures
        correct_spec(a) == a,
{
}

/// The round trip: applying the rescaling policy a second time never
/// changes anything, since one application lands every non-negative
/// color in range.
pub proof fn lemma_correct_color_round_trip(a: C3)
    requires
        0 <= a.r,
        0 <= a.g,
        0 <= a.b,
    ensures
        correct_spec(correct_spec(a)) == correct_spec(a),
{
    lemma_correct_color_in_range(a);
    lemma_correct_color_idempotent(correct_spec(a));
}

/// Division by the largest channel lands every non-negative color in
/// range, and clips the largest channel of an out-of-range color to
/// exactly one.
pub proof fn lemma_correct_color_in_range(a: C3)
    requires
        0 <= a.r,
        0 <= a.g,
        0 <= a.b,
    ensures
        in_range3(correct_spec(a)),
        !in_range3(a) ==> cmax(correct_spec(a)) == FX_ONE,
{
    if !in_range3(a) {
        let m = cmax(a);
        lemma_scaled_channel(a.r, m);
        lemma_scaled_channel(a.g, m);
        lemma_scaled_channel(a.b, m);
    }
}

/// Dividing a channel by a larger-than-one max lands it in `[0, 1]`, and
/// takes the max itself to exactly one.
proof fn lemma_scaled_channel(c: int, m: int)
    requires
        0 <= c <= m,
        FX_ONE < m,
    ensures
        0 <= fx_div(c, m) <= FX_ONE,
        c == m ==> fx_div(c, m) == FX_ONE,
{
    let s = FX_ONE as int;
    crate::fixed::lemma_tdiv_shrinks(c * s, m);
    vstd::arithmetic::mul::lemma_mul_inequality(c, m, s);
    vstd::arithmetic::div_mod::lemma_div_is_ordered(c * s, m * s, m);
    vstd::arithmetic::div_mod::lemma_div_multiples_vanish(s, m);
}

/// Attenuation never brightens and never turns negative: the
/// componentwise product of in-range colors is in range.
pub proof fn lemma_cmul_in_range(a: C3, b: C3)
    requires
        in_range3(a),
        in_range3(b),
    ensures
        in_range3(cmul(a, b)),
{
    crate::fixed::lemma_fx_mul_le(a.r, b.r);
    crate::fixed::lemma_fx_mul_le(a.g, b.g);
    crate::fixed::lemma_fx_mul_le(a.b, b.b);
}

/// The clamp of a gamma-corrected channel to `[0, 0.999]`.
pub open spec fn clamp_gamma(v: int) -> int {
    if v < 0 {
        0
    } else if v > GAMMA_CLAMP {
        GAMMA_CLAMP as int
    } else {
        v
    }
}

/// The 8-bit encoding of one raw channel: square root (gamma 2), clamp,
/// scale by 256 and truncate.
pub open spec fn encode_spec(c: int) -> int {
    tdiv(clamp_gamma(fx_sqrt(c)) * 256, FX_ONE as int)
}

/// The decimal digit character for `d` in `[0, 9]`.
pub open spec fn digit_char(d: int) -> char {
    if d == 0 {
        '0'
    } else if d == 1 {
        '1'
    } else if d == 2 {
        '2'
    } else if d == 3 {
        '3'
    } else if d == 4 {
        '4'
    } else if d == 5 {
        '5'
    } else if d == 6 {
        '6'
    } else if d == 7 {
        '7'
    } else if d == 8 {
        '8'
    } else {
        '9'
    }
}

/// The decimal rendering, without leading zeros, of `n` in `[0, 255]`.
pub open spec fn decimal(n: int) -> Seq<char> {
    if n < 10 {
        seq![digit_char(n)]
    } else if n < 100 {
        seq![digit_char(n / 10), digit_char(n % 10)]
    } else {
        seq![digit_char(n / 100), digit_char((n / 10) % 10), digit_char(n % 10)]
    }
}

/// The canonical text of one pixel: the three encoded channels in decimal,
/// separated by single spaces.
pub open spec fn pixel_text(a: C3) -> Seq<char> {
    decimal(encode_spec(a.r)) + seq![' '] + decimal(encode_spec(a.g)) + seq![' '] + decimal(
        encode_spec(a.b),
    )
}

/// A radiance value with fixed-point channels.
#[derive(Clone, Copy, Debug)]
pub struct Color {
    pub r: i64,
    pub g: i64,
    pub b: i64,
}

impl View for Color {
    type V = C3;

    open spec fn view(&self) -> C3 {
        C3 { r: self.r as int, g: self.g as int, b: self.b as int }
    }
}

impl Color {
    pub fn new(r: i64, g: i64, b: i64) -> (c: Color)
        requires
            0 <= r <= FX_BOUND,
            0 <= g <= FX_BOUND,
            0 <= b <= FX_BOUND,
        ensures
            c@ == correct_spec((C3 { r: r as int, g: g as int, b: b as int })),
    {
        (Color { r, g, b }).correct_color()
    }

    pub fn black() -> (c: Color)
        ensures
            c@.r == 0 && c@.g == 0 && c@.b == 0,
    {
        Color { r: 0, g: 0, b: 0 }
    }

    pub fn r(&self) -> (v: i64)
        ensures
            v as int == self@.r,
    {
        self.r
    }

    pub fn g(&self) -> (v: i64)
        ensures
            v as int == self@.g,
    {
        self.g
    }

    pub fn b(&self) -> (v: i64)
        ensures
            v as int == self@.b,
    {
        self.b
    }

    pub fn add(self, rhs: Color) -> (c: Color)
        requires
            i64::MIN <= self@.r + rhs@.r <= i64::MAX,
            i64::MIN <= self@.g + rhs@.g <= i64::MAX,
            i64::MIN <= self@.b + rhs@.b <= i64::MAX,
        ensures
            c@ == cadd(self@, rhs@),
    {
        Color { r: self.r + rhs.r, g: self.g + rhs.g, b: self.b + rhs.b }
    }

    pub fn sub(self, rhs: Color) -> (c: Color)
        requires
            i64::MIN <= self@.r - rhs@.r <= i64::MAX,
            i64::MIN <= self@.g - rhs@.g <= i64::MAX,
            i64::MIN <= self@.b - rhs@.b <= i64::MAX,
        ensures
            c@ == csub(self@, rhs@),
    {
        Color { r: self.r - rhs.r, g: self.g - rhs.g, b: self.b - rhs.b }
    }

    /// Scale every channel by a fixed-point scalar.
    pub fn mul(self, s: i64) -> (c: Color)
        requires
            -FX_BOUND <= self@.r <= FX_BOUND,
            -FX_BOUND <= self@.g <= FX_BOUND,
            -FX_BOUND <= self@.b <= FX_BOUND,
            -FX_BOUND <= s <= FX_BOUND,
        ensures
            c@ == cscale(self@, s as int),
    {
        Color { r: mul_fx(self.r, s), g: mul_fx(self.g, s), b: mul_fx(self.b, s) }
    }

    /// Divide every channel by a fixed-point scalar.
    pub fn div(self, s: i64) -> (c: Color)
        requires
            s != 0,
            -FX_BOUND <= self@.r <= FX_BOUND,
            -FX_BOUND <= self@.g <= FX_BOUND,
            -FX_BOUND <= self@.b <= FX_BOUND,
        ensures
            c@ == cdivs(self@, s as int),
    {
        Color { r: div_fx(self.r, s), g: div_fx(self.g, s), b: div_fx(self.b, s) }
    }

    /// Attenuate componentwise by another color.
    pub fn modulate(self, rhs: Color) -> (c: Color)
        requires
            -FX_BOUND <= self@.r <= FX_BOUND,
            -FX_BOUND <= self@.g <= FX_BOUND,
            -FX_BOUND <= self@.b <= FX_BOUND,
            -FX_BOUND <= rhs@.r <= FX_BOUND,
            -FX_BOUND <= rhs@.g <= FX_BOUND,
            -FX_BOUND <= rhs@.b <= FX_BOUND,
        ensures
            c@ == cmul(self@, rhs@),
    {
        Color { r: mul_fx(self.r, rhs.r), g: mul_fx(self.g, rhs.g), b: mul_fx(self.b, rhs.b) }
    }

    /// Rescale an out-of-range color by its largest channel; leave an
    /// in-range color unchanged.
    pub fn correct_color(self) -> (c: Color)
        requires
            0 <= self@.r <= FX_BOUND,
            0 <= self@.g <= FX_BOUND,
            0 <= self@.b <= FX_BOUND,
        ensures
            c@ == correct_spec(self@),
    {
        if 0 <= self.r && self.r <= FX_ONE && 0 <= self.g && self.g <= FX_ONE && 0 <= self.b
            && self.b <= FX_ONE {
            return self;
        }
        let m = if self.r >= self.g && self.r >= self.b {
            self.r
        } else if self.g >= self.b {
            self.g
        } else {
            self.b
        };
        self.div(m)
    }

    /// The canonical pixel text of this color.
    pub fn to_string(&self) -> (s: String)
        requires
            0 <= self@.r <= FX_SQRT_MAX,
            0 <= self@.g <= FX_SQRT_MAX,
            0 <= self@.b <= FX_SQRT_MAX,
        ensures
            s@ == pixel_text(self@),
    {
        let er = encode_channel(self.r);
        let eg = encode_channel(self.g);
        let eb = encode_channel(self.b);
        let mut out = String::new();
        push_decimal(&mut out, er);
        push_space(&mut out);
        push_decimal(&mut out, eg);
        push_space(&mut out);
        push_decimal(&mut out, eb);
        proof {
            assert(out@ =~= pixel_text(self@));
        }
        out
    }
}

/// Clamp a scalar to `[min, max]`.
pub fn clamp(x: i64, min: i64, max: i64) -> (r: i64)
    requires
        min <= max,
    ensures
        r == (if x < min {
            min as int
        } else if x > max {
            max as int
        } else {
            x as int
        }),
{
    if x < min {
        return min;
    }
    if x > max {
        return max;
    }
    x
}

/// Encode one raw channel as its 8-bit output value.
pub fn encode_channel(c: i64) -> (r: u8)
    requires
        0 <= c <= FX_SQRT_MAX,
    ensures
        r as int == encode_spec(c as int),
{
    let s = sqrt_fx(c);
    let cl: i64 = clamp(s, 0, GAMMA_CLAMP);
    let v: u64 = ((cl as u64) * 256) / 65536;
    proof {
        vstd::arithmetic::div_mod::lemma_div_is_ordered(cl as int * 256, 16760320, 65536);
        assert(16760320int / 65536int == 255);
    }
    v as u8
}

/// Append the digit character for `d`.
fn push_digit(out: &mut String, d: u8)
    requires
        d < 10,
    ensures
        final(out)@ == old(out)@ + seq![digit_char(d as int)],
{
    proof {
        reveal_strlit("0");
        reveal_strlit("1");
        reveal_strlit("2");
        reveal_strlit("3");
        reveal_strlit("4");
        reveal_strlit("5");
        reveal_strlit("6");
        reveal_strlit("7");
        reveal_strlit("8");
        reveal_strlit("9");
    }
    let t = match d {
        0 => "0",
        1 => "1",
        2 => "2",
        3 => "3",
        4 => "4",
        5 => "5",
        6 => "6",
        7 => "7",
        8 => "8",
        _ => "9",
    };
    out.append(t);
    proof {
        assert(out@ =~= old(out)@ + seq![digit_char(d as int)]);
    }
}

/// Append a single space.
fn push_space(out: &mut String)
    ensures
        final(out)@ == old(out)@ + seq![' '],
{
    proof {
        reveal_strlit(" ");
    }
    out.append(" ");
    proof {
        assert(out@ =~= old(out)@ + seq![' ']);
    }
}

/// Append the decimal rendering of `n`, without leading zeros.
pub fn push_decimal(out: &mut String, n: u8)
    ensures
        final(out)@ == old(out)@ + decimal(n as int),
{
    if n < 10 {
        push_digit(out, n);
    } else if n < 100 {
        push_digit(out, n / 10);
        push_digit(out, n % 10);
    } else {
        push_digit(out, n / 100);
        push_digit(out, (n / 10) % 10);
        push_digit(out, n % 10);
    }
    proof {
        assert(out@ =~= old(out)@ + decimal(n as int));
    }
}

} // verus!
