//! Reference data that the fog map reads: unit types, units and the terrain.

use vstd::prelude::*;
use crate::grid::{Grid, in_bounds};
use crate::types::{MapPos, PlayerId, Terrain, Unit, UnitId, UnitType, UnitTypeId};

verus! {

/// The table of unit types, indexed by `UnitTypeId`.
pub struct ObjectTypes {
    pub unit_types: Vec<UnitType>,
}

impl ObjectTypes {
    pub open spec fn has_type(&self, id: UnitTypeId) -> bool {
        id.id < self.unit_types@.len()
    }

    pub open spec fn spec_unit_type(&self, id: UnitTypeId) -> UnitType {
        self.unit_types@[id.id as int]
    }

    /// The unit type that `type_id` names.
    pub fn get_unit_type(&self, type_id: &UnitTypeId) -> (r: UnitType)
        requires
            self.has_type(*type_id),
        ensures
            r == self.spec_unit_type(*type_id),
    {
        self.unit_types[type_id.id]
    }
}

/// The unit of `units` with identifier `id`, if there is one.
pub open spec fn find_unit(units: Seq<Unit>, id: UnitId) -> Option<Unit> {
    if exists|i: int| 0 <= i < units.len() && (#[trigger] units[i]).id == id {
        let i = choose|i: int| 0 <= i < units.len() && (#[trigger] units[i]).id == id;
        Some(units[i])
    } else {
        None
    }
}

/// No two units share an identifier.
pub open spec fn unique_ids(units: Seq<Unit>) -> bool {
    forall|i: int, j: int| 0 <= i < units.len() && 0 <= j < units.len() && i != j
        ==> units[i].id != units[j].id
}

/// The terrain and the units of a game in progress.
pub struct InternalState {
    pub map: Grid<Terrain>,
    pub units: Vec<Unit>,
}

impl InternalState {
    /// The terrain is a well-formed grid; every unit stands on it, has a known
    /// type and an identifier that no other unit has.
    pub open spec fn wf(&self, types: &ObjectTypes) -> bool {
        &&& self.map.wf()
        &&& forall|i: int| 0 <= i < self.units@.len()
            ==> in_bounds(self.map.spec_size(), (#[trigger] self.units@[i]).pos)
        &&& forall|i: int| 0 <= i < self.units@.len()
            ==> types.has_type((#[trigger] self.units@[i]).type_id)
        &&& unique_ids(self.units@)
    }

    /// The unit with identifier `id`, if the game holds one.
    pub fn unit(&self, id: &UnitId) -> (r: Option<Unit>)
        requires
            unique_ids(self.units@),
        ensures
            r == find_unit(self.units@, *id),
    {
        let mut i: usize = 0;
        while i < self.units.len()
            invariant
                i <= self.units@.len(),
                unique_ids(self.units@),
                forall|k: int| 0 <= k < i ==> (#[trigger] self.units@[k]).id != *id,
            decreases self.units@.len() - i,
        {
            if self.units[i].id == *id {
                let ghost k = choose|k: int| 0 <= k < self.units@.len() && (#[trigger] self.units@[k]).id == *id;
                assert(self.units@[i as int].id == *id);
                assert(k != i ==> self.units@[k].id != self.units@[i as int].id);
                return Some(self.units[i]);
            }
            i = i + 1;
        }
        None
    }
}

} // verus!

verus! {

/// An event of the simulation, in the order the game produced them.
#[derive(Debug)]
pub enum CoreEvent {
    /// A unit walked along `path`, waypoint by waypoint.
    Move { unit_id: UnitId, path: Vec<MapPos> },
    /// The turn passed from `old_id` to `new_id`.
    EndTurn { old_id: PlayerId, new_id: PlayerId },
    /// A unit was created for `player_id` at `pos`.
    CreateUnit { unit_id: UnitId, pos: MapPos, type_id: UnitTypeId, player_id: PlayerId },
    /// One unit attacked another.
    AttackUnit { attacker_id: UnitId, defender_id: UnitId, killed: bool },
    /// A unit came into view.
    ShowUnit { unit_id: UnitId, pos: MapPos, type_id: UnitTypeId, player_id: PlayerId },
    /// A unit went out of view.
    HideUnit { unit_id: UnitId },
}

} // verus!
