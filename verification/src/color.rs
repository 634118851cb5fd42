//! Normalized three-channel colors and their packed-pixel form.
//!
//! A channel is a 16.16 fixed-point value; the nominal range `[0, FX_ONE]`
//! stands for the real interval `[0, 1]`. Packing scales each channel to
//! `[0, 255]` with floor rounding and clamps out-of-range channels first, so
//! a packed pixel never wraps around.

use vstd::prelude::*;
use crate::fixed::FX_ONE;
use crate::fixed::fdiv;
use vstd::arithmetic::div_mod::lemma_fundamental_div_mod;
use vstd::arithmetic::div_mod::lemma_mod_division_less_than_divisor;
use crate::fixed::lemma_fdiv_range;

verus! {

/// A color with fixed-point red, green and blue channels.
#[derive(Clone, Copy, Debug, PartialEq, Eq, Structural)]
pub struct Color {
    pub r: i64,
    pub g: i64,
    pub b: i64,
}

/// A channel clamped to the nominal range `[0, FX_ONE]`.
pub open spec fn clamp_channel(c: int) -> int {
    if c < 0 {
        0
    } else if c > FX_ONE {
        FX_ONE as int
    } else {
        c
    }
}

/// The byte a channel quantizes to: clamp, scale to `[0, 255]`, floor.
pub open spec fn pack_channel(c: int) -> int {
    fdiv(clamp_channel(c) * 255, FX_ONE as int)
}

/// The packed `0x00RRGGBB` pixel of a color.
pub open spec fn pack_color(c: Color) -> int {
    pack_channel(c.r as int) * 0x1_0000 + pack_channel(c.g as int) * 0x100 + pack_channel(c.b as int)
}

/// The fixed-point channel a byte unpacks to, with floor rounding.
pub open spec fn unpack_channel(byte: int) -> int {
    fdiv(byte * FX_ONE, 255)
}

/// The quantized byte stays in `[0, 255]`.
pub proof fn lemma_pack_channel_in_byte(c: int)
    ensures
        0 <= pack_channel(c) <= 255,
{
    lemma_fdiv_range(clamp_channel(c) * 255, FX_ONE as int, 0, 255);
}

impl Color {
    /// Builds a color from its three channels.
    pub fn new(r: i64, g: i64, b: i64) -> (c: Color)
        ensures
            c == (Color { r, g, b }),
    {
        Color { r, g, b }
    }

    /// Whether every channel lies in the nominal range `[0, FX_ONE]`.
    pub open spec fn is_normalized(self) -> bool {
        0 <= self.r <= FX_ONE && 0 <= self.g <= FX_ONE && 0 <= self.b <= FX_ONE
    }

    /// Packs the color into a `0x00RRGGBB` pixel, clamping each channel to
    /// the nominal range and quantizing it to a byte with floor rounding.
    pub fn to_hex(&self) -> (p: u32)
        ensures
            p == pack_color(*self),
    {
        let pr = pack_channel_exec(self.r);
        let pg = pack_channel_exec(self.g);
        let pb = pack_channel_exec(self.b);
        pr * 0x1_0000 + pg * 0x100 + pb
    }

    /// Unpacks a `0x00RRGGBB` pixel into a color, channel by channel.
    pub fn from_hex(p: u32) -> (c: Color)
        ensures
            c.r == unpack_channel(p as int / 0x1_0000 % 0x100),
            c.g == unpack_channel(p as int / 0x100 % 0x100),
            c.b == unpack_channel(p as int % 0x100),
    {
        Color {
            r: unpack_channel_exec(p / 0x1_0000 % 0x100),
            g: unpack_channel_exec(p / 0x100 % 0x100),
            b: unpack_channel_exec(p % 0x100),
        }
    }
}

/// Quantizes one channel to a byte: clamp to `[0, FX_ONE]`, scale, floor.
fn pack_channel_exec(c: i64) -> (byte: u32)
    ensures
        byte == pack_channel(c as int),
        byte <= 255,
{
    let clamped: i64 = if c < 0 {
        0
    } else if c > FX_ONE {
        FX_ONE
    } else {
        c
    };
    proof {
        lemma_pack_channel_in_byte(c as int);
    }
    (((clamped as u64) * 255) / (FX_ONE as u64)) as u32
}

/// Turns a byte back into a fixed-point channel, with floor rounding.
fn unpack_channel_exec(byte: u32) -> (c: i64)
    requires
        byte <= 255,
    ensures
        c == unpack_channel(byte as int),
    {
    proof {
        lemma_fdiv_range(byte as int * FX_ONE, 255, 0, FX_ONE as int);
    }
    (((byte as u64) * (FX_ONE as u64)) / 255) as i64
}

/// Packing then unpacking a channel in the nominal range moves it by at most
/// one quantization step, `ceil(FX_ONE / 255)`, and never upward.
pub proof fn lemma_pack_unpack_round_trip(c: int)
    requires
        0 <= c <= FX_ONE,
    ensures
        c - 257 <= unpack_channel(pack_channel(c)) <= c,
{
    let b = pack_channel(c);
    assert(clamp_channel(c) == c);
    lemma_pack_channel_in_byte(c);
    lemma_fundamental_div_mod(c * 255, FX_ONE as int);
    lemma_mod_division_less_than_divisor(c * 255, FX_ONE as int);
    let r1 = (c * 255) % (FX_ONE as int);
    assert(c * 255 == (FX_ONE as int) * b + r1);
    assert(b * FX_ONE == c * 255 - r1) by (nonlinear_arith)
        requires c * 255 == (FX_ONE as int) * b + r1;
    assert((c - 257) * 255 <= b * FX_ONE <= c * 255) by (nonlinear_arith)
        requires b * FX_ONE == c * 255 - r1 && 0 <= r1 < FX_ONE;
    lemma_fdiv_range(b * FX_ONE, 255, c - 257, c);
}

} // verus!
