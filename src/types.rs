//! Plain data shared by the grid, the sweep and the fog map.

use vstd::prelude::*;

verus! {

/// Identifier of a player.
#[derive(Clone, Copy, Debug, PartialEq, Eq, Structural)]
pub struct PlayerId {
    pub id: i32,
}

/// Identifier of a unit.
#[derive(Clone, Copy, Debug, PartialEq, Eq, Structural)]
pub struct UnitId {
    pub id: i32,
}

/// Identifier of a unit type in an `ObjectTypes` table.
#[derive(Clone, Copy, Debug, PartialEq, Eq, Structural)]
pub struct UnitTypeId {
    pub id: usize,
}

/// A tile position: column `x`, row `y`.
#[derive(Clone, Copy, Debug, PartialEq, Eq, Structural)]
pub struct MapPos {
    pub x: i32,
    pub y: i32,
}

/// Dimensions of a grid: `w` columns and `h` rows.
#[derive(Clone, Copy, Debug, PartialEq, Eq, Structural)]
pub struct Size2 {
    pub w: i32,
    pub h: i32,
}

/// What covers a tile.
#[derive(Clone, Copy, Debug, PartialEq, Eq, Structural)]
pub enum Terrain {
    Plain,
    Trees,
}

/// Broad class of a unit type.
#[derive(Clone, Copy, Debug, PartialEq, Eq, Structural)]
pub enum UnitClass {
    Infantry,
    Vehicle,
}

/// Sight capabilities of a unit type.
#[derive(Clone, Copy, Debug, PartialEq, Eq, Structural)]
pub struct UnitType {
    /// Farthest distance at which the unit sees anything.
    pub los_range: i32,
    /// Distance within which the unit sees through any cover.
    pub cover_los_range: i32,
    pub class: UnitClass,
}

/// A unit on the map.
#[derive(Clone, Copy, Debug, PartialEq, Eq, Structural)]
pub struct Unit {
    pub id: UnitId,
    pub pos: MapPos,
    pub player_id: PlayerId,
    pub type_id: UnitTypeId,
}

/// Failures reported by the fog-of-war operations.
#[derive(Clone, Copy, Debug, PartialEq, Eq, Structural)]
pub enum FowError {
    /// A position lies outside the grid.
    InvalidPosition,
    /// An event names a unit that the unit collection does not hold.
    UnknownUnitId,
}

} // verus!
