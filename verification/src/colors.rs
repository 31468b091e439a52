//! The terminal colours that the grids are painted with.
use vstd::prelude::*;
use cursive::theme::Color;

verus! {

/// The colour type of the terminal toolkit, carried through the grids unread.
#[verifier::external_type_specification]
#[verifier::external_body]
pub struct ExColor(Color);

/// The colour `Color::Rgb(r, g, b)` of the terminal toolkit.
pub uninterp spec fn rgb_color(r: u8, g: u8, b: u8) -> Color;

/// Builds the true-colour value `Color::Rgb(r, g, b)` of the terminal
/// toolkit. Trusted: the result is the enum variant built from the three
/// components, which the contract names `rgb_color(r, g, b)`.
#[verifier::external_body]
pub(crate) fn rgb(r: u8, g: u8, b: u8) -> (c: Color)
    ensures
        c == rgb_color(r, g, b),
{
    Color::Rgb(r, g, b)
}

} // verus!
