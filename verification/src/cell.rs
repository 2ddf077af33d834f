//! Terrain cells: four-channel values whose first channel flags solidity and
//! whose third channel flags breakability.

use vstd::prelude::*;

verus! {

/// One cell of the collision map.
///
/// `red` is the solidity flag and `blue` the breakability flag; `green` and
/// `alpha` only carry what is drawn.
#[derive(Clone, Copy, Debug, PartialEq, Eq, Structural)]
pub struct TerrainCell {
    pub red: u8,
    pub green: u8,
    pub blue: u8,
    pub alpha: u8,
}

/// Open air: nothing to stand on, nothing to dig. Opaque black.
pub open spec fn spec_empty_pixel() -> TerrainCell {
    TerrainCell { red: 0, green: 0, blue: 0, alpha: 255 }
}

/// Ground that carries a lemming and that digging removes. All channels
/// saturated.
pub open spec fn spec_solid_breakable_pixel() -> TerrainCell {
    TerrainCell { red: 255, green: 255, blue: 255, alpha: 255 }
}

#[verifier::when_used_as_spec(spec_empty_pixel)]
pub fn empty_pixel() -> (cell: TerrainCell)
    ensures
        cell == spec_empty_pixel(),
{
    TerrainCell { red: 0, green: 0, blue: 0, alpha: 255 }
}

#[verifier::when_used_as_spec(spec_solid_breakable_pixel)]
pub fn solid_breakable_pixel() -> (cell: TerrainCell)
    ensures
        cell == spec_solid_breakable_pixel(),
{
    TerrainCell { red: 255, green: 255, blue: 255, alpha: 255 }
}

impl TerrainCell {
    /// A cell is solid when its solidity channel is set.
    pub open spec fn solid(&self) -> bool {
        self.red != 0
    }

    /// A cell is breakable when its breakability channel is set.
    pub open spec fn breakable(&self) -> bool {
        self.blue != 0
    }

    /// A cell is empty when it equals the empty pixel in all four channels.
    pub open spec fn empty(&self) -> bool {
        *self == empty_pixel()
    }

    #[verifier::when_used_as_spec(solid)]
    pub fn is_solid(&self) -> (b: bool)
        ensures
            b == self.solid(),
    {
        self.red != 0
    }

    #[verifier::when_used_as_spec(breakable)]
    pub fn is_breakable(&self) -> (b: bool)
        ensures
            b == self.breakable(),
    {
        self.blue != 0
    }

    #[verifier::when_used_as_spec(empty)]
    pub fn is_empty(&self) -> (b: bool)
        ensures
            b == self.empty(),
    {
        *self == empty_pixel()
    }
}

} // verus!
