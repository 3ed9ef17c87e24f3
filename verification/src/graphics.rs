//! Plain value types shared by the text model and the views: colors, fonts
//! and integer geometry.

use vstd::prelude::*;

verus! {

/// An RGBA color with eight bits per channel.
#[derive(Clone, Copy, Debug, PartialEq, Eq, Structural)]
pub struct Color {
    pub red: u8,
    pub green: u8,
    pub blue: u8,
    pub alpha: u8,
}

impl Color {
    /// The opaque color with the given channels.
    pub open spec fn opaque(red: u8, green: u8, blue: u8) -> Color {
        Color { red, green, blue, alpha: 255 }
    }

    pub fn new(red: u8, green: u8, blue: u8, alpha: u8) -> (color: Color)
        ensures
            color == (Color { red, green, blue, alpha }),
    {
        Color { red, green, blue, alpha }
    }

    pub fn black() -> (color: Color)
        ensures
            color == Color::opaque(0, 0, 0),
    {
        Color { red: 0, green: 0, blue: 0, alpha: 255 }
    }

    pub fn white() -> (color: Color)
        ensures
            color == Color::opaque(255, 255, 255),
    {
        Color { red: 255, green: 255, blue: 255, alpha: 255 }
    }

    pub fn red() -> (color: Color)
        ensures
            color == Color::opaque(255, 0, 0),
    {
        Color { red: 255, green: 0, blue: 0, alpha: 255 }
    }

    pub fn green() -> (color: Color)
        ensures
            color == Color::opaque(0, 255, 0),
    {
        Color { red: 0, green: 255, blue: 0, alpha: 255 }
    }

    pub fn blue() -> (color: Color)
        ensures
            color == Color::opaque(0, 0, 255),
    {
        Color { red: 0, green: 0, blue: 255, alpha: 255 }
    }
}

/// The family a typeface belongs to.
#[derive(Clone, Copy, Debug, PartialEq, Eq, Structural)]
pub enum Typeface {
    SansSerif,
    Serif,
    Monospace,
}

/// A typeface at a size in points.
#[derive(Clone, Copy, Debug, PartialEq, Eq, Structural)]
pub struct Font {
    pub typeface: Typeface,
    pub size: u16,
}

impl Font {
    /// The font used where none was chosen: sans-serif at 17 points.
    pub open spec fn standard() -> Font {
        Font { typeface: Typeface::SansSerif, size: 17 }
    }

    pub fn new(typeface: Typeface, size: u16) -> (font: Font)
        ensures
            font == (Font { typeface, size }),
    {
        Font { typeface, size }
    }
}

impl Default for Font {
    fn default() -> (font: Font)
        ensures
            font == Font::standard(),
    {
        Font { typeface: Typeface::SansSerif, size: 17 }
    }
}

/// A position on the integer pixel grid.
#[derive(Clone, Copy, Debug, PartialEq, Eq, Structural)]
pub struct Point {
    pub x: i32,
    pub y: i32,
}

/// A width and a height in pixels.
#[derive(Clone, Copy, Debug, PartialEq, Eq, Structural)]
pub struct Size {
    pub width: u32,
    pub height: u32,
}

/// An axis-aligned rectangle: the frame of a view.
#[derive(Clone, Copy, Debug, PartialEq, Eq, Structural)]
pub struct Rectangle {
    pub origin: Point,
    pub size: Size,
}

impl Rectangle {
    pub fn new(x: i32, y: i32, width: u32, height: u32) -> (frame: Rectangle)
        ensures
            frame == (Rectangle { origin: Point { x, y }, size: Size { width, height } }),
    {
        Rectangle { origin: Point { x, y }, size: Size { width, height } }
    }
}

} // verus!
