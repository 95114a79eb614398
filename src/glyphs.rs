use vstd::prelude::*;

use crate::components::Rgb;

verus! {

/// The code-page 437 code of a character, as rltk's table gives it.
pub uninterp spec fn cp437_of(c: char) -> u16;

/// Relies on rltk::to_cp437: the code depends on the character alone.
#[verifier::external_body]
pub(crate) fn glyph_of(c: char) -> (r: u16)
    ensures
        r == cp437_of(c),
{
    rltk::to_cp437(c)
}

/// Relies on rltk::YELLOW, the triple (255, 255, 0).
#[verifier::external_body]
pub(crate) fn yellow() -> (r: Rgb)
    ensures
        r == (Rgb { r: 255, g: 255, b: 0 }),
{
    let (r, g, b) = rltk::YELLOW;
    Rgb { r, g, b }
}

/// Relies on rltk::RED, the triple (255, 0, 0).
#[verifier::external_body]
pub(crate) fn red() -> (r: Rgb)
    ensures
        r == (Rgb { r: 255, g: 0, b: 0 }),
{
    let (r, g, b) = rltk::RED;
    Rgb { r, g, b }
}

/// Relies on rltk::BLACK, the triple (0, 0, 0).
#[verifier::external_body]
pub(crate) fn black() -> (r: Rgb)
    ensures
        r == (Rgb { r: 0, g: 0, b: 0 }),
{
    let (r, g, b) = rltk::BLACK;
    Rgb { r, g, b }
}

} // verus!
