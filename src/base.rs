use vstd::prelude::*;

verus! {

/// An 8-bit RGB colour.
#[derive(PartialEq, Eq, Structural, Debug, Clone, Copy)]
pub struct Color {
    red: u8,
    green: u8,
    blue: u8,
}

impl View for Color {
    type V = (u8, u8, u8);

    closed spec fn view(&self) -> (u8, u8, u8) {
        (self.red, self.green, self.blue)
    }
}

/// What a channel becomes once clamped to `0..=255`.
pub open spec fn clamped(v: int) -> u8 {
    if v < 0 {
        0
    } else if v > 255 {
        255
    } else {
        v as u8
    }
}

/// Clamps one channel, already rounded to an integer, into the range of `u8`.
pub fn clamp_channel(v: i64) -> (r: u8)
    ensures
        r == clamped(v as int),
{
    if v < 0 {
        0
    } else if v > 255 {
        255
    } else {
        v as u8
    }
}

impl Color {
    pub fn new(red: u8, green: u8, blue: u8) -> (c: Color)
        ensures
            c@ == (red, green, blue),
    {
        Color { red: red, green: green, blue: blue }
    }

    /// The channels as `[red, green, blue]`.
    pub fn get(&self) -> (r: [u8; 3])
        ensures
            r@ == seq![self@.0, self@.1, self@.2],
    {
        [self.red, self.green, self.blue]
    }

    /// Builds a colour from channel values that have been rounded to integers
    /// but may lie outside `0..=255`: each channel is clamped into that range.
    pub fn from_rounded(red: i64, green: i64, blue: i64) -> (c: Color)
        ensures
            c@ == (clamped(red as int), clamped(green as int), clamped(blue as int)),
    {
        Color { red: clamp_channel(red), green: clamp_channel(green), blue: clamp_channel(blue) }
    }
}

/// Anything that carries a colour, such as a light source.
pub trait Colorable {
    fn get_color(&self) -> &Color;
}

} // verus!
