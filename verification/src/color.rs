//! Gamma-corrected 8-bit color output: linear radiance becomes one plain
//! text line of three decimal channel values.

use crate::fixed::{spec_sqrt, tdiv, fx_sqrt, FX_ONE};
use crate::interval::{spec_clamp, Interval};
use crate::vec3::Vec3;
use vstd::prelude::*;

verus! {

/// A color: three fixed-point channels, one unit meaning full brightness.
pub type Color = Vec3;

/// The clamp ceiling just below one, so that a full channel still maps
/// under 256.
pub const INTENSITY_MAX: i64 = 65470;

/// Gamma encoding of one linear channel: its square root when positive,
/// zero otherwise.
pub open spec fn spec_linear_to_gamma(x: int) -> int {
    if x > 0 {
        spec_sqrt(x)
    } else {
        0
    }
}

/// The byte one channel maps to: gamma-encode, clamp to `[0, 0.999]`,
/// scale to the 8-bit range.
pub open spec fn spec_channel_byte(x: int) -> int {
    let g = spec_linear_to_gamma(x);
    let c = spec_clamp(Interval { min: 0, max: INTENSITY_MAX }, g as i64);
    tdiv(c * 256, FX_ONE as int)
}

/// The decimal digits of a nonnegative number, most significant first.
pub open spec fn spec_decimal(v: int) -> Seq<u8>
    recommends
        v >= 0,
    decreases v,
{
    if v < 10 {
        seq![(48 + v) as u8]
    } else {
        spec_decimal(v / 10).push((48 + v % 10) as u8)
    }
}

/// The output line of one pixel: three channel bytes in decimal, separated
/// by spaces and closed by a newline.
pub open spec fn spec_color_line(c: Color) -> Seq<u8> {
    spec_decimal(spec_channel_byte(c.x as int)) + seq![32u8] + spec_decimal(
        spec_channel_byte(c.y as int),
    ) + seq![32u8] + spec_decimal(spec_channel_byte(c.z as int)) + seq![10u8]
}

/// Gamma encoding of one linear channel.
pub fn linear_to_gamma(linear_component: i64) -> (r: i64)
    ensures
        r as int == spec_linear_to_gamma(linear_component as int),
        r >= 0,
{
    if linear_component > 0 {
        return fx_sqrt(linear_component);
    }
    0
}

/// The byte one channel maps to.
pub fn channel_byte(x: i64) -> (r: u8)
    ensures
        r as int == spec_channel_byte(x as int),
{
    let intensity: Interval = Interval::new(0, INTENSITY_MAX);
    let g: i64 = linear_to_gamma(x);
    let c: i64 = intensity.clamp(g);
    let scaled: u64 = (c as u64) * 256 / (FX_ONE as u64);
    proof {
        vstd::arithmetic::div_mod::lemma_div_is_ordered(
            (c as int) * 256,
            (INTENSITY_MAX as int) * 256,
            FX_ONE as int,
        );
    }
    scaled as u8
}

/// Append the decimal digits of `v`, most significant first.
pub fn push_decimal(out: &mut Vec<u8>, v: u32)
    ensures
        final (out)@ == old(out)@ + spec_decimal(v as int),
    decreases v,
{
    if v < 10 {
        out.push(48 + (v as u8));
    } else {
        let ghost mid = out@ + spec_decimal((v / 10) as int);
        push_decimal(out, v / 10);
        out.push(48 + ((v % 10) as u8));
        proof {
            assert(out@ =~= old(out)@ + spec_decimal(v as int));
        }
    }
}

/// Append one pixel's output line to the byte sink.
pub fn write_color(out: &mut Vec<u8>, pixel_color: Color)
    ensures
        final (out)@ == old(out)@ + spec_color_line(pixel_color),
{
    let ir: u8 = channel_byte(pixel_color.x());
    let ig: u8 = channel_byte(pixel_color.y());
    let ib: u8 = channel_byte(pixel_color.z());
    push_decimal(out, ir as u32);
    out.push(32);
    push_decimal(out, ig as u32);
    out.push(32);
    push_decimal(out, ib as u32);
    out.push(10);
    proof {
        assert(out@ =~= old(out)@ + spec_color_line(pixel_color));
    }
}

} // verus!
