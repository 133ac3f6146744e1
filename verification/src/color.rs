//! Display colours of the plotted curves.

use vstd::prelude::*;

verus! {

/// A colour as red, green and blue, eight bits each.
#[derive(Debug, Clone, Copy, PartialEq, Eq, Structural)]
pub struct Rgb {
    pub red: u8,
    pub green: u8,
    pub blue: u8,
}

/// Calls `rand::random::<u8>()`, which draws a byte from the thread-local
/// generator. Nothing is claimed of the byte: any value may come back, and
/// two calls may differ. On a thread's first draw the generator takes its
/// seed from the operating system, and `rand` panics if none is to be had;
/// that is outside what is proved here.
#[verifier::external_body]
fn random_channel() -> (r: u8) {
    rand::random::<u8>()
}

/// A colour whose three channels are drawn independently. Any colour may
/// come back; colours already in use are not avoided.
pub fn random_color() -> (c: Rgb) {
    let red = random_channel();
    let green = random_channel();
    let blue = random_channel();
    Rgb { red, green, blue }
}

} // verus!
