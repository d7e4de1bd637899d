//! RGBA pixel values used by the document and the layout engine.

use vstd::prelude::*;

verus! {

/// One RGBA pixel. The alpha channel doubles as a transparency flag when a
/// rendered canvas is composited over a background: a pixel with `a == 0` is
/// skipped by the compositor.
#[derive(Clone, Copy, PartialEq, Eq, Structural, Debug)]
pub struct Rgba {
    pub r: u8,
    pub g: u8,
    pub b: u8,
    pub a: u8,
}

/// The color ordinary statement text is rendered in.
pub open spec fn white() -> Rgba {
    Rgba { r: 255, g: 255, b: 255, a: 255 }
}

/// The dimmed color used for the placeholder text of an empty, unfocused
/// document.
pub open spec fn dimmed() -> Rgba {
    Rgba { r: 127, g: 127, b: 127, a: 255 }
}

/// The fully transparent pixel a fresh canvas is filled with.
pub open spec fn transparent() -> Rgba {
    Rgba { r: 0, g: 0, b: 0, a: 0 }
}

impl Rgba {
    pub fn white() -> (c: Rgba)
        ensures
            c == white(),
    {
        Rgba { r: 255, g: 255, b: 255, a: 255 }
    }

    pub fn dimmed() -> (c: Rgba)
        ensures
            c == dimmed(),
    {
        Rgba { r: 127, g: 127, b: 127, a: 255 }
    }

    pub fn transparent() -> (c: Rgba)
        ensures
            c == transparent(),
    {
        Rgba { r: 0, g: 0, b: 0, a: 0 }
    }
}

} // verus!
