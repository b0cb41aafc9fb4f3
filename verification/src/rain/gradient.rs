//! Colour gradients along the body of a drop.

use vstd::prelude::*;

verus! {

/// A colour by its red, green and blue share.
#[derive(Debug, Clone, Copy, PartialEq, Eq, Structural)]
pub struct Color {
    pub r: u8,
    pub g: u8,
    pub b: u8,
}

/// The value `num / den` of the way from `a` to `b`, rounded to the nearest
/// whole number (a half rounds up) and kept inside `0..=255`. The way may
/// lead beyond `b`. Where `den` is zero the value is 0.
pub open spec fn blend(a: int, b: int, num: int, den: int) -> int {
    if den <= 0 {
        0
    } else {
        let scaled = a * (den - num) + b * num;
        if scaled <= 0 {
            0
        } else if (2 * scaled + den) / (2 * den) > 255 {
            255
        } else {
            (2 * scaled + den) / (2 * den)
        }
    }
}

pub open spec fn blend_color(from: Color, to: Color, num: int, den: int) -> Color {
    Color {
        r: blend(from.r as int, to.r as int, num, den) as u8,
        g: blend(from.g as int, to.g as int, num, den) as u8,
        b: blend(from.b as int, to.b as int, num, den) as u8,
    }
}

/// Step `i`, counted from 1, of a gradient that reaches `middle` at step
/// `middle_point` and goes on towards `end` at the same pace.
pub open spec fn gradient_step(start: Color, middle: Color, end: Color, middle_point: int, i: int) -> Color {
    if i <= middle_point {
        blend_color(start, middle, i, middle_point)
    } else {
        blend_color(middle, end, i - middle_point, middle_point)
    }
}

fn lerp(a: u8, b: u8, num: usize, den: usize) -> (v: u8)
    ensures
        v == blend(a as int, b as int, num as int, den as int),
{
    if den == 0 {
        return 0;
    }
    let rest: i128 = den as i128 - num as i128;
    assert(-0x1_0000_0000_0000_0000 < rest < 0x1_0000_0000_0000_0000);
    assert(-0x100_0000_0000_0000_0000 < (a as int) * rest < 0x100_0000_0000_0000_0000) by (nonlinear_arith)
        requires 0 <= a < 256, -0x1_0000_0000_0000_0000 < rest < 0x1_0000_0000_0000_0000;
    assert(0 <= (b as int) * (num as int) < 0x100_0000_0000_0000_0000) by (nonlinear_arith)
        requires 0 <= b < 256, 0 <= num < 0x1_0000_0000_0000_0000;
    let scaled: i128 = a as i128 * rest + b as i128 * num as i128;
    if scaled <= 0 {
        return 0;
    }
    let rounded: i128 = (2 * scaled + den as i128) / (2 * den as i128);
    if rounded > 255 {
        255
    } else {
        rounded as u8
    }
}

fn lerp_color(from: Color, to: Color, num: usize, den: usize) -> (color: Color)
    ensures
        color == blend_color(from, to, num as int, den as int),
{
    Color { r: lerp(from.r, to.r, num, den), g: lerp(from.g, to.g, num, den), b: lerp(from.b, to.b, num, den) }
}

/// A gradient of `length` colours that runs from `start_color` to
/// `middle_color`, reached at step `middle_point`, and from there towards
/// `end_color`.
pub fn two_step_color_gradient(
    start_color: Color,
    middle_color: Color,
    end_color: Color,
    middle_point: usize,
    length: usize,
) -> (gradient: Vec<Color>)
    ensures
        gradient@.len() == length,
        forall|k: int|
            0 <= k < length ==> #[trigger] gradient@[k] == gradient_step(
                start_color,
                middle_color,
                end_color,
                middle_point as int,
                k + 1,
            ),
{
    let mut gradient: Vec<Color> = Vec::new();
    let mut k: usize = 0;
    while k < length
        invariant
            k <= length,
            gradient@.len() == k,
            forall|j: int|
                0 <= j < k ==> #[trigger] gradient@[j] == gradient_step(
                    start_color,
                    middle_color,
                    end_color,
                    middle_point as int,
                    j + 1,
                ),
        decreases length - k,
    {
        let i = k + 1;
        let color = if i <= middle_point {
            lerp_color(start_color, middle_color, i, middle_point)
        } else {
            lerp_color(middle_color, end_color, i - middle_point, middle_point)
        };
        gradient.push(color);
        k += 1;
    }
    gradient
}

} // verus!
