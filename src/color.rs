//! Colors: HSL to RGB conversion and the current drawing color.
use vstd::prelude::*;
use crate::fixed::ONE;
use crate::geometry::Rgba;
use crate::config::VisualizerConfig;

verus! {

pub open spec fn abs_diff(a: int, b: int) -> int {
    if a >= b { a - b } else { b - a }
}

/// The channel value of a component in [0, 1], truncated to a byte.
pub open spec fn to_byte(v: int) -> int {
    if v <= 0 { 0 } else if v * 255 / ONE as int >= 255 { 255 } else { v * 255 / ONE as int }
}

/// HSL to RGB with hue, saturation and lightness in [0, 1]: chroma `c`, the
/// second-largest component `x`, and the offset `m`, placed by the hue's
/// sixth of the circle.
pub open spec fn spec_hsl(h: int, s: int, l: int) -> Rgba {
    let c = (ONE - abs_diff(2 * l, ONE as int)) * s / ONE as int;
    let h6 = 6 * h;
    let x = c * (ONE - abs_diff(h6 % (2 * ONE) as int, ONE as int)) / ONE as int;
    let m = l - c / 2;
    let sector = h6 / ONE as int;
    let (r, g, b) = if sector == 0 {
        (c, x, 0)
    } else if sector == 1 {
        (x, c, 0)
    } else if sector == 2 {
        (0, c, x)
    } else if sector == 3 {
        (0, x, c)
    } else if sector == 4 {
        (x, 0, c)
    } else {
        (c, 0, x)
    };
    Rgba {
        r: to_byte(r + m) as u8,
        g: to_byte(g + m) as u8,
        b: to_byte(b + m) as u8,
        a: 255,
    }
}

fn byte_of(v: i64) -> (r: u8)
    requires
        -2 * ONE <= v <= 2 * ONE,
    ensures
        r == to_byte(v as int),
{
    if v <= 0 {
        0
    } else {
        let b = (v as u64) * 255 / ONE;
        if b >= 255 { 255 } else { b as u8 }
    }
}

/// Converts a hue, saturation and lightness in [0, 1] to an opaque color.
pub fn hsl_to_rgb(h: u64, s: u64, l: u64) -> (r: Rgba)
    requires
        h <= ONE,
        s <= ONE,
        l <= ONE,
    ensures
        r == spec_hsl(h as int, s as int, l as int),
{
    let two_l = 2 * l;
    let d = if two_l >= ONE { two_l - ONE } else { ONE - two_l };
    assert((ONE - d) * s / (ONE as int) <= ONE) by (nonlinear_arith)
        requires d <= ONE, s <= ONE;
    let c = (ONE - d) * s / ONE;
    let h6 = 6 * h;
    let hm = h6 % (2 * ONE);
    let e = if hm >= ONE { hm - ONE } else { ONE - hm };
    assert(c * (ONE - e) / (ONE as int) <= c) by (nonlinear_arith)
        requires e <= ONE, c <= ONE;
    let x = c * (ONE - e) / ONE;
    let m = l as i64 - (c / 2) as i64;
    let sector = h6 / ONE;
    let ci = c as i64;
    let xi = x as i64;
    let (r, g, b): (i64, i64, i64) = if sector == 0 {
        (ci, xi, 0)
    } else if sector == 1 {
        (xi, ci, 0)
    } else if sector == 2 {
        (0, ci, xi)
    } else if sector == 3 {
        (0, xi, ci)
    } else if sector == 4 {
        (xi, 0, ci)
    } else {
        (ci, 0, xi)
    };
    Rgba { r: byte_of(r + m), g: byte_of(g + m), b: byte_of(b + m), a: 255 }
}

/// Saturation and lightness of the cycling color, 0.8 and 0.6.
pub const CYCLE_SATURATION: u64 = 8000;

pub const CYCLE_LIGHTNESS: u64 = 6000;

/// The color to draw with at `time`: the base color, or when cycling, a hue
/// that turns once per `1 / color_cycle_speed` seconds.
pub fn get_current_color(cfg: &VisualizerConfig, time: u64) -> (r: Rgba)
    requires
        cfg.color_cycle_speed <= 1000 * ONE,
        time <= 0x10_0000_0000,
    ensures
        !cfg.color_cycle ==> r == cfg.base_color,
        cfg.color_cycle ==> r == spec_hsl(
            (time * cfg.color_cycle_speed / ONE as int) % (ONE as int),
            CYCLE_SATURATION as int,
            CYCLE_LIGHTNESS as int,
        ),
{
    if cfg.color_cycle {
        assert(time * cfg.color_cycle_speed <= 0x10_0000_0000 * (1000 * ONE)) by (nonlinear_arith)
            requires time <= 0x10_0000_0000u64, cfg.color_cycle_speed <= 1000 * ONE;
        let hue = (time * cfg.color_cycle_speed / ONE) % ONE;
        hsl_to_rgb(hue, CYCLE_SATURATION, CYCLE_LIGHTNESS)
    } else {
        cfg.base_color
    }
}

} // verus!
