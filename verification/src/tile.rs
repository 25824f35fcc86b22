//! The tile coordinate handed from the URL parser to the rendering
//! collaborators.

use vstd::prelude::*;

verus! {

/// The highest zoom level the server accepts in a tile address.
pub const MAX_ZOOM: u8 = 18;

/// An addressable map region in the power-of-two slippy-map scheme.
///
/// The address parser only bounds `zoom`; `x` and `y` are not checked
/// against `2^zoom`, which mirrors the documented gap in the address
/// grammar rather than silently tightening it.
#[derive(Clone, Copy, PartialEq, Eq, Structural, Debug)]
pub struct Tile {
    pub zoom: u8,
    pub x: u32,
    pub y: u32,
}

impl Tile {
    /// The invariant the address parser establishes.
    pub open spec fn is_valid(self) -> bool {
        self.zoom <= MAX_ZOOM
    }
}

} // verus!
