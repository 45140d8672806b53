//! Colors for players and scene objects, drawn from a small fixed palette
//! with a seeded generator.
use vstd::prelude::*;

verus! {

#[verifier::external_type_specification]
#[verifier::external_body]
pub struct ExRand32(oorandom::Rand32);

/// Relies on oorandom::Rand32::new to seed a generator; nothing is promised of it.
pub assume_specification[ oorandom::Rand32::new ](seed: u64) -> oorandom::Rand32;

/// Relies on oorandom::Rand32::rand_range, which returns a value in `0..n`
/// whenever the range is not empty.
#[verifier::external_body]
fn rand_below(rng: &mut oorandom::Rand32, n: u32) -> (r: u32)
    requires
        n > 0,
    ensures
        r < n,
{
    rng.rand_range(0..n)
}

/// An opaque RGB color.
#[derive(Clone, Copy, Debug, PartialEq, Eq, Structural)]
pub struct Color {
    pub r: u8,
    pub g: u8,
    pub b: u8,
}

/// Number of colors in the palette.
pub const PALETTE_SIZE: u32 = 4;

/// The palette, by index.
pub open spec fn palette_color(i: int) -> Color {
    if i == 0 {
        Color { r: 88, g: 128, b: 211 }
    } else if i == 1 {
        Color { r: 240, g: 64, b: 23 }
    } else if i == 2 {
        Color { r: 15, g: 141, b: 86 }
    } else {
        Color { r: 234, g: 183, b: 18 }
    }
}

pub open spec fn in_palette(c: Color) -> bool {
    exists|i: int| 0 <= i < PALETTE_SIZE && c == #[trigger] palette_color(i)
}

pub fn palette_entry(i: u32) -> (c: Color)
    requires
        i < PALETTE_SIZE,
    ensures
        c == palette_color(i as int),
{
    if i == 0 {
        Color { r: 88, g: 128, b: 211 }
    } else if i == 1 {
        Color { r: 240, g: 64, b: 23 }
    } else if i == 2 {
        Color { r: 15, g: 141, b: 86 }
    } else {
        Color { r: 234, g: 183, b: 18 }
    }
}

/// The seeded generator that every color draw advances, in event order.
pub struct Palette {
    rng: oorandom::Rand32,
}

impl Palette {
    pub fn new(seed: u64) -> (p: Palette) {
        Palette { rng: oorandom::Rand32::new(seed) }
    }

    /// Draws a color, with replacement, from the palette.
    pub fn next_color(&mut self) -> (c: Color)
        ensures
            in_palette(c),
    {
        let i = rand_below(&mut self.rng, PALETTE_SIZE);
        let c = palette_entry(i);
        assert(c == palette_color(i as int));
        c
    }

    /// The given color, or else one drawn from the palette. The generator
    /// only advances when a color is drawn.
    pub fn color_or_next(&mut self, explicit: Option<Color>) -> (c: Color)
        ensures
            explicit is Some ==> c == explicit->Some_0 && *final(self) == *old(self),
            explicit is None ==> in_palette(c),
    {
        match explicit {
            Some(c) => c,
            None => self.next_color(),
        }
    }
}

} // verus!
