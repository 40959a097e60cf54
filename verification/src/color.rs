//! Pixels.

use vstd::prelude::*;

verus! {

/// One pixel: three 8-bit channels, each running from 0 (dark) to 255 (full).
#[derive(Clone, Copy, Debug, PartialEq, Eq, Structural)]
pub struct Color {
    pub red: u8,
    pub green: u8,
    pub blue: u8,
}

/// Pure red.
pub fn red() -> (color: Color)
    ensures
        color == (Color { red: 255, green: 0, blue: 0 }),
{
    Color { red: 255, green: 0, blue: 0 }
}

impl Color {
    pub fn new(red: u8, green: u8, blue: u8) -> (color: Self)
        ensures
            color == (Color { red, green, blue }),
    {
        Color { red, green, blue }
    }

    pub fn red(&self) -> (channel: u8)
        ensures
            channel == self.red,
    {
        self.red
    }

    pub fn green(&self) -> (channel: u8)
        ensures
            channel == self.green,
    {
        self.green
    }

    pub fn blue(&self) -> (channel: u8)
        ensures
            channel == self.blue,
    {
        self.blue
    }
}

impl Default for Color {
    /// Black.
    fn default() -> (color: Self)
        ensures
            color == (Color { red: 0, green: 0, blue: 0 }),
    {
        Color { red: 0, green: 0, blue: 0 }
    }
}

} // verus!
