use vstd::prelude::*;

verus! {

/// An RGBA colour with eight bits per channel.
#[derive(Clone, Copy, Debug, PartialEq, Eq, Structural)]
pub struct Color {
    pub r: u8,
    pub g: u8,
    pub b: u8,
    pub a: u8,
}

/// The brightness correction, in tenths, applied to walls hit on a Y side.
pub const SIDE_SHADE: i8 = -3;

/// A brightness correction limited to the range from -10 to 10 tenths.
pub open spec fn clamp_tenths(tenths: int) -> int {
    if tenths < -10 {
        -10
    } else if tenths > 10 {
        10
    } else {
        tenths
    }
}

/// One channel after a brightness correction of `tenths` tenths: a negative
/// correction scales the channel towards 0, a positive one moves it towards
/// 255 by that fraction of the remaining distance.
pub open spec fn corrected_channel(channel: int, tenths: int) -> int {
    let t = clamp_tenths(tenths);
    if t < 0 {
        channel * (10 + t) / 10
    } else {
        (255 - channel) * t / 10 + channel
    }
}

/// A colour after a brightness correction; the alpha channel is kept.
pub open spec fn corrected(c: Color, tenths: int) -> Color {
    Color {
        r: corrected_channel(c.r as int, tenths) as u8,
        g: corrected_channel(c.g as int, tenths) as u8,
        b: corrected_channel(c.b as int, tenths) as u8,
        a: c.a,
    }
}

/// The opaque colour with the given red, green and blue channels.
pub open spec fn rgb(r: u8, g: u8, b: u8) -> Color {
    Color { r, g, b, a: 255 }
}

/// The sum of the three colour channels, a measure of how bright a colour is.
pub open spec fn intensity(c: Color) -> int {
    c.r + c.g + c.b
}

/// A corrected channel is again a channel value.
pub proof fn lemma_corrected_channel_range(channel: int, tenths: int)
    requires
        0 <= channel <= 255,
    ensures
        0 <= corrected_channel(channel, tenths) <= 255,
        tenths < 0 ==> corrected_channel(channel, tenths) <= channel,
        tenths < 0 && channel > 0 ==> corrected_channel(channel, tenths) < channel,
        tenths >= 0 ==> corrected_channel(channel, tenths) >= channel,
{
    let t = clamp_tenths(tenths);
    if t < 0 {
        assert(channel * (10 + t) <= channel * 9) by (nonlinear_arith)
            requires
                0 <= channel,
                -10 <= t < 0,
        ;
        assert(0 <= channel * (10 + t)) by (nonlinear_arith)
            requires
                0 <= channel,
                -10 <= t < 0,
        ;
    } else {
        assert(0 <= (255 - channel) * t <= (255 - channel) * 10) by (nonlinear_arith)
            requires
                channel <= 255,
                0 <= t <= 10,
        ;
    }
}

fn correct_channel(channel: u8, tenths: i8) -> (r: u8)
    ensures
        r == corrected_channel(channel as int, tenths as int),
{
    let t: i32 = if tenths < -10 {
        -10
    } else if tenths > 10 {
        10
    } else {
        tenths as i32
    };
    let c: i32 = channel as i32;
    proof {
        lemma_corrected_channel_range(channel as int, tenths as int);
    }
    if t < 0 {
        assert(0 <= c * (10 + t) <= 2550) by (nonlinear_arith)
            requires
                0 <= c <= 255,
                -10 <= t < 0,
        ;
        (c * (10 + t) / 10) as u8
    } else {
        assert(0 <= (255 - c) * t <= 2550) by (nonlinear_arith)
            requires
                0 <= c <= 255,
                0 <= t <= 10,
        ;
        ((255 - c) * t / 10 + c) as u8
    }
}

impl Color {
    /// The colour with the given channels.
    pub fn new(r: u8, g: u8, b: u8, a: u8) -> (c: Color)
        ensures
            c == (Color { r, g, b, a }),
    {
        Color { r, g, b, a }
    }

    /// The opaque colour with the given red, green and blue channels.
    pub fn rgb(r: u8, g: u8, b: u8) -> (c: Color)
        ensures
            c == rgb(r, g, b),
    {
        Color { r, g, b, a: 255 }
    }

    /// Opaque black.
    pub fn black() -> (c: Color)
        ensures
            c == rgb(0, 0, 0),
    {
        Color { r: 0, g: 0, b: 0, a: 255 }
    }

    /// Opaque blue.
    pub fn blue() -> (c: Color)
        ensures
            c == rgb(0, 121, 241),
    {
        Color { r: 0, g: 121, b: 241, a: 255 }
    }

    /// Opaque red.
    pub fn red() -> (c: Color)
        ensures
            c == rgb(230, 41, 55),
    {
        Color { r: 230, g: 41, b: 55, a: 255 }
    }

    /// This colour after a brightness correction of `tenths` tenths, a value
    /// from -10 (black) to 10 (white); values outside that range are clamped.
    pub fn brightness(&self, tenths: i8) -> (c: Color)
        ensures
            c == corrected(*self, tenths as int),
    {
        Color {
            r: correct_channel(self.r, tenths),
            g: correct_channel(self.g, tenths),
            b: correct_channel(self.b, tenths),
            a: self.a,
        }
    }
}

} // verus!
