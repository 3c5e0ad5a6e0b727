//! The editor's panel frame style and theme colours.
use vstd::prelude::*;

use crate::editor::data_types::FloatBits;

verus! {

/// An opaque-capable 8-bit RGBA colour.
#[derive(Debug, Clone, Copy, PartialEq, Eq, Structural)]
pub struct Rgba8 {
    pub r: u8,
    pub g: u8,
    pub b: u8,
    pub a: u8,
}

/// An opaque colour from its red, green and blue bytes.
pub fn from_rgb(r: u8, g: u8, b: u8) -> (color: Rgba8)
    ensures
        color == (Rgba8 { r, g, b, a: 255 }),
{
    Rgba8 { r, g, b, a: 255 }
}

/// The editor's theme colours.
pub struct ThemeColor;

impl ThemeColor {
    /// Lightest background, also used for panel borders.
    pub fn bg2() -> (color: Rgba8)
        ensures
            color == (Rgba8 { r: 60, g: 60, b: 60, a: 255 }),
    {
        from_rgb(60, 60, 60)
    }

    /// Panel background.
    pub fn bg1() -> (color: Rgba8)
        ensures
            color == (Rgba8 { r: 45, g: 45, b: 45, a: 255 }),
    {
        from_rgb(45, 45, 45)
    }

    /// Darkest background.
    pub fn bg0() -> (color: Rgba8)
        ensures
            color == (Rgba8 { r: 27, g: 27, b: 27, a: 255 }),
    {
        from_rgb(27, 27, 27)
    }

    /// Primary text colour.
    pub fn text0() -> (color: Rgba8)
        ensures
            color == (Rgba8 { r: 60, g: 60, b: 60, a: 255 }),
    {
        from_rgb(60, 60, 60)
    }

    /// Secondary text colour.
    pub fn text1() -> (color: Rgba8)
        ensures
            color == (Rgba8 { r: 60, g: 60, b: 60, a: 255 }),
    {
        from_rgb(60, 60, 60)
    }
}

/// The look of an editor panel frame.
#[derive(Debug, Clone, Copy)]
pub struct FrameStyle {
    /// Corner radius in points.
    pub corner_radius: u8,
    /// Outer margin on every side, in points.
    pub outer_margin: i8,
    /// Border width, as the bits of an `f32` in points.
    pub stroke_width: FloatBits,
    pub stroke_color: Rgba8,
    pub fill: Rgba8,
}

/// The bits of `1.0f32`.
pub const ONE_POINT_BITS: FloatBits = 0x3f80_0000u32;

/// The standard panel frame of the editor.
pub struct Frame;

impl Frame {
    /// Rounded by 6, 4 outside margin, a 1-point border in `bg2`, filled with `bg1`.
    pub fn new() -> (style: FrameStyle)
        ensures
            style.corner_radius == 6,
            style.outer_margin == 4,
            style.stroke_width == ONE_POINT_BITS,
            style.stroke_color == ThemeColor::bg2_spec(),
            style.fill == ThemeColor::bg1_spec(),
    {
        FrameStyle {
            corner_radius: 6,
            outer_margin: 4,
            stroke_width: ONE_POINT_BITS,
            stroke_color: ThemeColor::bg2(),
            fill: ThemeColor::bg1(),
        }
    }
}

impl ThemeColor {
    /// The value `bg2` returns.
    pub open spec fn bg2_spec() -> Rgba8 {
        Rgba8 { r: 60, g: 60, b: 60, a: 255 }
    }

    /// The value `bg1` returns.
    pub open spec fn bg1_spec() -> Rgba8 {
        Rgba8 { r: 45, g: 45, b: 45, a: 255 }
    }
}

} // verus!
