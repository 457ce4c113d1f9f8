//! The chart colour palette.
use vstd::prelude::*;

verus! {

/// A colour as red, green, blue and alpha components, with the colour
/// components already multiplied by alpha.
#[derive(Clone, Copy, Debug, PartialEq, Eq, Structural)]
pub struct Rgba {
    pub r: u8,
    pub g: u8,
    pub b: u8,
    pub a: u8,
}

impl Rgba {
    /// An opaque colour.
    pub fn from_rgb(r: u8, g: u8, b: u8) -> (c: Self)
        ensures
            c == (Rgba { r, g, b, a: 255 }),
    {
        Rgba { r, g, b, a: 255 }
    }

    /// A colour whose components are already multiplied by `a`.
    pub fn from_rgba_premultiplied(r: u8, g: u8, b: u8, a: u8) -> (c: Self)
        ensures
            c == (Rgba { r, g, b, a }),
    {
        Rgba { r, g, b, a }
    }
}

/// Colours of the chart series.
pub struct ChartColors;

impl ChartColors {
    /// Equity: green.
    pub fn equity() -> (c: Rgba)
        ensures
            c == (Rgba { r: 100, g: 200, b: 100, a: 255 }),
    {
        Rgba::from_rgb(100, 200, 100)
    }

    /// Cost: orange.
    pub fn cost() -> (c: Rgba)
        ensures
            c == (Rgba { r: 255, g: 150, b: 100, a: 255 }),
    {
        Rgba::from_rgb(255, 150, 100)
    }

    /// Money lost: red.
    pub fn waste() -> (c: Rgba)
        ensures
            c == (Rgba { r: 255, g: 100, b: 100, a: 255 }),
    {
        Rgba::from_rgb(255, 100, 100)
    }

    /// Interest: violet.
    pub fn interest() -> (c: Rgba)
        ensures
            c == (Rgba { r: 200, g: 150, b: 255, a: 255 }),
    {
        Rgba::from_rgb(200, 150, 255)
    }

    /// Rent: light blue.
    pub fn rent() -> (c: Rgba)
        ensures
            c == (Rgba { r: 100, g: 180, b: 255, a: 255 }),
    {
        Rgba::from_rgb(100, 180, 255)
    }

    /// Band between the 5th and 95th percentiles: faint blue.
    pub fn p5_p95() -> (c: Rgba)
        ensures
            c == (Rgba { r: 100, g: 150, b: 255, a: 30 }),
    {
        Rgba::from_rgba_premultiplied(100, 150, 255, 30)
    }

    /// Band between the 25th and 75th percentiles: a stronger blue.
    pub fn p25_p75() -> (c: Rgba)
        ensures
            c == (Rgba { r: 100, g: 150, b: 255, a: 60 }),
    {
        Rgba::from_rgba_premultiplied(100, 150, 255, 60)
    }

    /// Median line: blue.
    pub fn median() -> (c: Rgba)
        ensures
            c == (Rgba { r: 100, g: 150, b: 255, a: 255 }),
    {
        Rgba::from_rgb(100, 150, 255)
    }
}

} // verus!
