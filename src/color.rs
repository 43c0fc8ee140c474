use vstd::prelude::*;

verus! {

/// An RGBA colour with eight bits per channel.
#[derive(Clone, Copy, Debug, PartialEq, Eq, Structural)]
pub struct Color {
    pub r: u8,
    pub g: u8,
    pub b: u8,
    pub a: u8,
}

/// The fully transparent colour that fills every pixel no rectangle covers.
pub open spec fn transparent() -> Color {
    Color { r: 0, g: 0, b: 0, a: 0 }
}

/// Channel `k` of `c`, in the order red, green, blue, alpha.
pub open spec fn channel(c: Color, k: int) -> u8 {
    if k == 0 {
        c.r
    } else if k == 1 {
        c.g
    } else if k == 2 {
        c.b
    } else {
        c.a
    }
}

/// The fixed palette of the figure.
#[derive(Clone, Copy, Debug, PartialEq, Eq, Structural)]
pub enum Paint {
    Skin,
    Hair,
    Shirt,
    Pants,
    ShoesTop,
    ShoesBottom,
    Eyes,
    Pupil,
    Mouth,
    Nose,
}

impl Paint {
    pub open spec fn spec_color(self) -> Color {
        match self {
            Paint::Skin => Color { r: 220, g: 180, b: 140, a: 255 },
            Paint::Hair => Color { r: 60, g: 30, b: 20, a: 255 },
            Paint::Shirt => Color { r: 50, g: 120, b: 200, a: 255 },
            Paint::Pants => Color { r: 40, g: 40, b: 40, a: 255 },
            Paint::ShoesTop => Color { r: 20, g: 20, b: 20, a: 255 },
            Paint::ShoesBottom => Color { r: 10, g: 10, b: 10, a: 255 },
            Paint::Eyes => Color { r: 255, g: 255, b: 255, a: 255 },
            Paint::Pupil => Color { r: 0, g: 0, b: 0, a: 255 },
            Paint::Mouth => Color { r: 150, g: 0, b: 0, a: 255 },
            Paint::Nose => Color { r: 180, g: 140, b: 120, a: 255 },
        }
    }

    /// The RGBA value of this palette entry.
    pub fn color(self) -> (c: Color)
        ensures
            c == self.spec_color(),
    {
        match self {
            Paint::Skin => Color { r: 220, g: 180, b: 140, a: 255 },
            Paint::Hair => Color { r: 60, g: 30, b: 20, a: 255 },
            Paint::Shirt => Color { r: 50, g: 120, b: 200, a: 255 },
            Paint::Pants => Color { r: 40, g: 40, b: 40, a: 255 },
            Paint::ShoesTop => Color { r: 20, g: 20, b: 20, a: 255 },
            Paint::ShoesBottom => Color { r: 10, g: 10, b: 10, a: 255 },
            Paint::Eyes => Color { r: 255, g: 255, b: 255, a: 255 },
            Paint::Pupil => Color { r: 0, g: 0, b: 0, a: 255 },
            Paint::Mouth => Color { r: 150, g: 0, b: 0, a: 255 },
            Paint::Nose => Color { r: 180, g: 140, b: 120, a: 255 },
        }
    }
}

/// The fully transparent colour.
pub fn clear() -> (c: Color)
    ensures
        c == transparent(),
{
    Color { r: 0, g: 0, b: 0, a: 0 }
}

} // verus!
