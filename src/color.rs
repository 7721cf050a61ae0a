//! Colours as the native brush factory takes them: four channels, each a
//! byte that the surface divides by 255 to land in `[0, 1]`.

use piet::Color;
use vstd::prelude::*;

verus! {

#[verifier::external_type_specification]
pub struct ExColor(piet::Color);

/// The byte found `shift` bits up in a packed `0xRRGGBBAA` value.
pub open spec fn byte_at(rgba: u32, shift: u32) -> u8 {
    ((rgba >> shift) & 0xff) as u8
}

/// The four channels of a colour, red first and alpha last.
#[derive(Clone, Copy, Debug, PartialEq, Eq, Structural)]
pub struct Rgba8 {
    pub r: u8,
    pub g: u8,
    pub b: u8,
    pub a: u8,
}

/// The channels packed in `rgba`, alpha in the least significant byte.
pub open spec fn unpack(rgba: u32) -> Rgba8 {
    Rgba8 { r: byte_at(rgba, 24), g: byte_at(rgba, 16), b: byte_at(rgba, 8), a: byte_at(rgba, 0) }
}

/// The packed value that a piet colour carries.
pub open spec fn packed(c: Color) -> u32 {
    match c {
        Color::Rgba32(rgba) => rgba,
    }
}

/// The byte found `shift` bits up in `rgba`.
fn byte_of(rgba: u32, shift: u32) -> (r: u8)
    requires
        shift < 32,
    ensures
        r == byte_at(rgba, shift),
{
    let v: u32 = (rgba >> shift) & 0xffu32;
    assert(v < 256) by (bit_vector)
        requires
            v == (rgba >> shift) & 0xffu32,
    ;
    v as u8
}

/// Splits a packed `0xRRGGBBAA` value into its channels.
pub fn unpack_rgba(rgba: u32) -> (r: Rgba8)
    ensures
        r == unpack(rgba),
{
    Rgba8 { r: byte_of(rgba, 24), g: byte_of(rgba, 16), b: byte_of(rgba, 8), a: byte_of(rgba, 0) }
}

/// The channels of a piet colour.
pub fn channels(color: &Color) -> (r: Rgba8)
    ensures
        r == unpack(packed(*color)),
{
    match color {
        Color::Rgba32(rgba) => unpack_rgba(*rgba),
    }
}

/// A gradient stop as the native factory takes it.
#[derive(Clone, Copy, Debug, PartialEq)]
pub struct GradientStop<S> {
    pub position: S,
    pub color: Rgba8,
}

/// The native form of a stop given as a position and a piet colour.
pub open spec fn native_stop<S>(stop: (S, Color)) -> GradientStop<S> {
    GradientStop { position: stop.0, color: unpack(packed(stop.1)) }
}

/// The stops of a linear gradient in native form, in the order given.
pub fn gradient_stops<S: Copy>(stops: &Vec<(S, Color)>) -> (r: Vec<GradientStop<S>>)
    ensures
        r@.len() == stops@.len(),
        forall|i: int| 0 <= i < stops@.len() ==> #[trigger] r@[i] == native_stop(stops@[i]),
{
    let mut out: Vec<GradientStop<S>> = Vec::new();
    let mut i: usize = 0;
    while i < stops.len()
        invariant
            i <= stops@.len(),
            out@.len() == i,
            forall|j: int| 0 <= j < i ==> #[trigger] out@[j] == native_stop(stops@[j]),
        decreases stops.len() - i,
    {
        let stop = &stops[i];
        out.push(GradientStop { position: stop.0, color: channels(&stop.1) });
        i = i + 1;
    }
    out
}

} // verus!
