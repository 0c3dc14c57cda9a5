//! Per-channel blending of two colours by a ratio.
//!
//! Channels and ratios are in the same fixed point as progress: [`UNIT`] is a
//! full channel, or a ratio of one.
use vstd::prelude::*;
use vstd::arithmetic::div_mod::lemma_div_by_multiple;
use crate::effect::UNIT;

verus! {

/// A colour with red, green, blue and alpha channels, each in units.
#[derive(Debug, Clone, Copy, PartialEq, Eq, Structural)]
pub struct Color {
    pub r: u32,
    pub g: u32,
    pub b: u32,
    pub a: u32,
}

impl Color {
    /// Every channel lies within `[0, UNIT]`.
    pub open spec fn wf(self) -> bool {
        &&& self.r <= UNIT
        &&& self.g <= UNIT
        &&& self.b <= UNIT
        &&& self.a <= UNIT
    }
}

/// `x` brought within `[0, UNIT]`.
pub open spec fn clamp_unit(x: int) -> int {
    if x < 0 {
        0
    } else if x > UNIT {
        UNIT as int
    } else {
        x
    }
}

/// `base * (1 - ratio) + overlay * ratio` in units, rounded down and clamped to `[0, UNIT]`.
pub open spec fn blend(base: int, overlay: int, ratio: int) -> int {
    clamp_unit((base * (UNIT - ratio) + overlay * ratio) / (UNIT as int))
}

/// `blend` applied to each of the four channels.
pub open spec fn mix_spec(color: Color, other: Color, ratio: u32) -> Color {
    Color {
        r: blend(color.r as int, other.r as int, ratio as int) as u32,
        g: blend(color.g as int, other.g as int, ratio as int) as u32,
        b: blend(color.b as int, other.b as int, ratio as int) as u32,
        a: blend(color.a as int, other.a as int, ratio as int) as u32,
    }
}

/// One channel of a mix.
fn blend_channel(base: u32, overlay: u32, ratio: u32) -> (r: u32)
    ensures
        r == blend(base as int, overlay as int, ratio as int),
{
    let keep: i128 = UNIT as i128 - ratio as i128;
    proof {
        assert(-0x1_0000_0000 * 0x1_0000_0000 <= base * keep <= 0x1_0000_0000 * 0x1_0000_0000)
            by (nonlinear_arith)
            requires
                0 <= base < 0x1_0000_0000,
                -0x1_0000_0000 < keep <= 1_000_000,
        ;
        assert(0 <= overlay * ratio <= 0x1_0000_0000 * 0x1_0000_0000) by (nonlinear_arith)
            requires
                0 <= overlay < 0x1_0000_0000,
                0 <= ratio < 0x1_0000_0000,
        ;
    }
    let num: i128 = (base as i128) * keep + (overlay as i128) * (ratio as i128);
    if num < 0 {
        0
    } else {
        let q: u128 = (num as u128) / (UNIT as u128);
        if q > UNIT as u128 {
            UNIT
        } else {
            q as u32
        }
    }
}

/// Mix with another color with the given ratio: each channel becomes
/// `color * (1 - ratio) + other * ratio`, clamped to `[0, UNIT]`.
pub fn mix(color: Color, other: Color, ratio: u32) -> (r: Color)
    ensures
        r == mix_spec(color, other, ratio),
        r.wf(),
{
    Color {
        r: blend_channel(color.r, other.r, ratio),
        g: blend_channel(color.g, other.g, ratio),
        b: blend_channel(color.b, other.b, ratio),
        a: blend_channel(color.a, other.a, ratio),
    }
}

/// A channel mixed with itself, or at a ratio of `0` or `UNIT`, is the channel kept.
proof fn lemma_blend_fixed_points(base: int, overlay: int, ratio: int)
    requires
        0 <= base <= UNIT,
        0 <= overlay,
    ensures
        blend(base, base, ratio) == base,
        blend(base, overlay, 0) == base,
        blend(overlay, base, UNIT as int) == base,
{
    assert(base * (UNIT - ratio) + base * ratio == base * UNIT) by (nonlinear_arith);
    assert(base * (UNIT - 0) + overlay * 0 == base * UNIT) by (nonlinear_arith);
    assert(overlay * (UNIT - UNIT) + base * UNIT == base * UNIT) by (nonlinear_arith);
    lemma_div_by_multiple(base, UNIT as int);
    assert(base * UNIT == base * (UNIT as int));
}

/// Mixing a colour with itself gives it back at any ratio; a ratio of `0`
/// gives the first colour and a ratio of `UNIT` the second.
pub proof fn lemma_mix_laws(color: Color, other: Color, ratio: u32)
    requires
        color.wf(),
        other.wf(),
    ensures
        mix_spec(color, color, ratio) == color,
        mix_spec(color, other, 0) == color,
        mix_spec(color, other, UNIT) == other,
{
    lemma_blend_fixed_points(color.r as int, other.r as int, ratio as int);
    lemma_blend_fixed_points(color.g as int, other.g as int, ratio as int);
    lemma_blend_fixed_points(color.b as int, other.b as int, ratio as int);
    lemma_blend_fixed_points(color.a as int, other.a as int, ratio as int);
    lemma_blend_fixed_points(other.r as int, color.r as int, ratio as int);
    lemma_blend_fixed_points(other.g as int, color.g as int, ratio as int);
    lemma_blend_fixed_points(other.b as int, color.b as int, ratio as int);
    lemma_blend_fixed_points(other.a as int, color.a as int, ratio as int);
}

} // verus!
