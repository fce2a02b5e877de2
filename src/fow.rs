//! Fog of war: how well each player sees each tile, kept up to date as the
//! game's events come in.

use vstd::prelude::*;
use crate::fov::{fov, in_sight};
use crate::grid::{Grid, dist, distance, in_bounds};
use crate::objects::{CoreEvent, InternalState, ObjectTypes, find_unit};
use crate::types::{FowError, MapPos, PlayerId, Size2, Terrain, Unit, UnitClass, UnitType};
use crate::grid::{filled, valid_size};

verus! {

/// How well a tile is seen.
#[derive(Clone, Copy, Debug, PartialEq, Eq, Structural)]
pub enum TileVisibility {
    No,
    Normal,
    Excellent,
}

/// The order of the levels: `No < Normal < Excellent`.
pub open spec fn rank(v: TileVisibility) -> int {
    match v {
        TileVisibility::No => 0,
        TileVisibility::Normal => 1,
        TileVisibility::Excellent => 2,
    }
}

/// The better of two levels.
pub open spec fn vis_max(a: TileVisibility, b: TileVisibility) -> TileVisibility {
    if rank(a) < rank(b) { b } else { a }
}

impl TileVisibility {
    /// Position of the level in the order `No < Normal < Excellent`.
    pub fn rank(&self) -> (r: u8)
        ensures
            r == rank(*self),
    {
        match self {
            TileVisibility::No => 0,
            TileVisibility::Normal => 1,
            TileVisibility::Excellent => 2,
        }
    }
}

/// The level at which a unit of type `ut` sees a tile of terrain `t` at distance `d`.
pub open spec fn classify(d: int, t: Terrain, ut: UnitType) -> TileVisibility {
    if d <= ut.cover_los_range {
        TileVisibility::Excellent
    } else if d <= ut.los_range {
        match t {
            Terrain::Trees => TileVisibility::Normal,
            Terrain::Plain => TileVisibility::Excellent,
        }
    } else {
        TileVisibility::No
    }
}

/// The level at which a unit of type `unit_type` sees a tile of `terrain` at `distance`.
pub fn calc_visibility(terrain: &Terrain, unit_type: &UnitType, distance: &i64) -> (r: TileVisibility)
    ensures
        r == classify(*distance as int, *terrain, *unit_type),
{
    if *distance <= unit_type.cover_los_range as i64 {
        TileVisibility::Excellent
    } else if *distance <= unit_type.los_range as i64 {
        match terrain {
            Terrain::Trees => TileVisibility::Normal,
            Terrain::Plain => TileVisibility::Excellent,
        }
    } else {
        TileVisibility::No
    }
}

/// What a unit of type `ut` standing at `origin` sees of the tile at `p`: the
/// sweep reaches tiles up to its `los_range`, and it sees nothing beyond.
pub open spec fn projected(terrain: Map<MapPos, Terrain>, ut: UnitType, origin: MapPos, p: MapPos) -> TileVisibility {
    if dist(origin, p) <= ut.los_range {
        classify(dist(origin, p), terrain[p], ut)
    } else {
        TileVisibility::No
    }
}

/// `fog` after merging in what a unit of type `ut` at `origin` sees.
pub open spec fn project(
    fog: Map<MapPos, TileVisibility>,
    terrain: Map<MapPos, Terrain>,
    ut: UnitType,
    origin: MapPos,
) -> Map<MapPos, TileVisibility> {
    Map::new(
        |p: MapPos| fog.dom().contains(p),
        |p: MapPos| vis_max(fog[p], projected(terrain, ut, origin, p)),
    )
}

/// `fog` after merging in each sighting of `steps` in turn: a unit type and the
/// position it looks from.
pub open spec fn project_all(
    fog: Map<MapPos, TileVisibility>,
    terrain: Map<MapPos, Terrain>,
    steps: Seq<(UnitType, MapPos)>,
) -> Map<MapPos, TileVisibility>
    decreases steps.len(),
{
    if steps.len() == 0 {
        fog
    } else {
        let last = steps.last();
        project(project_all(fog, terrain, steps.drop_last()), terrain, last.0, last.1)
    }
}

/// Merges into `fow` what `unit` sees from `origin`; tiles are never lowered.
/// An `origin` off the grid is refused with `InvalidPosition` and changes nothing.
pub fn fov_unit_in_pos(
    object_types: &ObjectTypes,
    terrain: &Grid<Terrain>,
    fow: &mut Grid<TileVisibility>,
    unit: &Unit,
    origin: &MapPos,
) -> (r: Result<(), FowError>)
    requires
        terrain.wf(),
        old(fow).wf(),
        old(fow).spec_size() == terrain.spec_size(),
        object_types.has_type(unit.type_id),
    ensures
        final(fow).wf(),
        final(fow).spec_size() == old(fow).spec_size(),
        r is Err <==> !in_bounds(terrain.spec_size(), *origin),
        r is Err ==> r == Err::<(), FowError>(FowError::InvalidPosition) && final(fow)@ == old(fow)@,
        r is Ok ==> final(fow)@ == project(
            old(fow)@,
            terrain@,
            object_types.spec_unit_type(unit.type_id),
            *origin,
        ),
{
    let unit_type = object_types.get_unit_type(&unit.type_id);
    let tiles = match fov(terrain, origin, unit_type.los_range) {
        Ok(tiles) => tiles,
        Err(e) => {
            return Err(e);
        },
    };
    let ghost size = terrain.spec_size();
    let ghost start = fow@;
    proof {
        fow.lemma_view_dom();
    }
    let mut i: usize = 0;
    while i < tiles.len()
        invariant
            i <= tiles@.len(),
            terrain.wf(),
            fow.wf(),
            fow.spec_size() == size,
            terrain.spec_size() == size,
            fow@.dom() == start.dom(),
            forall|p: MapPos| #[trigger] start.dom().contains(p) == in_bounds(size, p),
            forall|p: MapPos| #[trigger] tiles@.contains(p)
                <==> in_sight(size, *origin, unit_type.los_range as int, p),
            forall|p: MapPos| #[trigger] start.dom().contains(p) ==> fow@[p] == (
                if tiles@.subrange(0, i as int).contains(p) {
                    vis_max(start[p], projected(terrain@, unit_type, *origin, p))
                } else {
                    start[p]
                }),
        decreases tiles@.len() - i,
    {
        let p = tiles[i];
        assert(tiles@.contains(p));
        let current = fow.tile(&p);
        let d = distance(origin, &p);
        let seen = calc_visibility(&terrain.tile(&p), &unit_type, &d);
        if seen.rank() > current.rank() {
            fow.set_tile(&p, seen);
        }
        proof {
            let prev = tiles@.subrange(0, i as int);
            let next = tiles@.subrange(0, i + 1);
            assert(next =~= prev.push(p));
            assert forall|q: MapPos| #[trigger] next.contains(q) == (prev.contains(q) || q == p) by {
                if prev.contains(q) {
                    let k = choose|k: int| 0 <= k < prev.len() && prev[k] == q;
                    assert(next[k] == q);
                }
                if q == p {
                    assert(next[i as int] == q);
                }
                if next.contains(q) && q != p {
                    let k = choose|k: int| 0 <= k < next.len() && next[k] == q;
                    assert(prev[k] == q);
                }
            }
        }
        i = i + 1;
    }
    proof {
        assert(tiles@.subrange(0, tiles@.len() as int) =~= tiles@);
        assert(fow@ =~= project(start, terrain@, unit_type, *origin));
    }
    Ok(())
}

/// Merges into `fow` what `unit` sees from where it stands.
pub fn fov_unit(
    object_types: &ObjectTypes,
    terrain: &Grid<Terrain>,
    fow: &mut Grid<TileVisibility>,
    unit: &Unit,
) -> (r: Result<(), FowError>)
    requires
        terrain.wf(),
        old(fow).wf(),
        old(fow).spec_size() == terrain.spec_size(),
        object_types.has_type(unit.type_id),
    ensures
        final(fow).wf(),
        final(fow).spec_size() == old(fow).spec_size(),
        r is Err <==> !in_bounds(terrain.spec_size(), unit.pos),
        r is Err ==> r == Err::<(), FowError>(FowError::InvalidPosition) && final(fow)@ == old(fow)@,
        r is Ok ==> final(fow)@ == project(
            old(fow)@,
            terrain@,
            object_types.spec_unit_type(unit.type_id),
            unit.pos,
        ),
{
    fov_unit_in_pos(object_types, terrain, fow, unit, &unit.pos)
}

/// Merging in sightings keeps the set of tiles.
pub proof fn lemma_project_all_dom(
    fog: Map<MapPos, TileVisibility>,
    terrain: Map<MapPos, Terrain>,
    steps: Seq<(UnitType, MapPos)>,
)
    ensures
        project_all(fog, terrain, steps).dom() == fog.dom(),
    decreases steps.len(),
{
    if steps.len() > 0 {
        lemma_project_all_dom(fog, terrain, steps.drop_last());
        assert(project_all(fog, terrain, steps).dom()
            =~= project_all(fog, terrain, steps.drop_last()).dom());
    }
}

/// Monotonic merge: however many sightings are merged in, in whatever order,
/// no tile's level goes down.
pub proof fn lemma_project_all_monotone(
    fog: Map<MapPos, TileVisibility>,
    terrain: Map<MapPos, Terrain>,
    steps: Seq<(UnitType, MapPos)>,
)
    ensures
        project_all(fog, terrain, steps).dom() == fog.dom(),
        forall|p: MapPos| fog.dom().contains(p)
            ==> rank(#[trigger] project_all(fog, terrain, steps)[p]) >= rank(fog[p]),
    decreases steps.len(),
{
    lemma_project_all_dom(fog, terrain, steps);
    if steps.len() > 0 {
        lemma_project_all_monotone(fog, terrain, steps.drop_last());
        let inner = project_all(fog, terrain, steps.drop_last());
        assert forall|p: MapPos| fog.dom().contains(p)
            implies rank(#[trigger] project_all(fog, terrain, steps)[p]) >= rank(fog[p]) by {
            assert(rank(inner[p]) >= rank(fog[p]));
        }
    }
}

/// Idempotent reset: recomputing the map a second time, with the units where
/// they were, gives the same map as the first time.
pub proof fn lemma_reset_idempotent(
    fog: Map<MapPos, TileVisibility>,
    terrain: Map<MapPos, Terrain>,
    units: Seq<Unit>,
    player: PlayerId,
    types: Seq<UnitType>,
)
    ensures
        after_reset(after_reset(fog, terrain, units, player, types), terrain, units, player, types)
            == after_reset(fog, terrain, units, player, types),
{
    let once = after_reset(fog, terrain, units, player, types);
    lemma_project_all_dom(cleared(fog), terrain, sighted_steps(units, player, types));
    assert(cleared(once) =~= cleared(fog));
}

/// Classifier boundary: within cover range every tile is seen at `Excellent`,
/// and beyond sight range (and cover range) none is seen, whatever its terrain.
pub proof fn lemma_classify_boundary(d: int, t: Terrain, ut: UnitType)
    ensures
        d <= ut.cover_los_range ==> classify(d, t, ut) == TileVisibility::Excellent,
        d > ut.los_range && d > ut.cover_los_range ==> classify(d, t, ut) == TileVisibility::No,
{
}

/// Infantry stealth: on a tile seen at `Normal` infantry is not spotted and
/// vehicles are; on a tile seen at `Excellent` both are.
pub proof fn lemma_infantry_stealth()
    ensures
        !spotted(TileVisibility::Normal, UnitClass::Infantry),
        spotted(TileVisibility::Normal, UnitClass::Vehicle),
        spotted(TileVisibility::Excellent, UnitClass::Infantry),
        spotted(TileVisibility::Excellent, UnitClass::Vehicle),
{
}

/// Whether a unit of class `class` on a tile seen at level `v` is spotted:
/// infantry hides on tiles seen only at `Normal`.
pub open spec fn spotted(v: TileVisibility, class: UnitClass) -> bool {
    match v {
        TileVisibility::Excellent => true,
        TileVisibility::Normal => class == UnitClass::Vehicle,
        TileVisibility::No => false,
    }
}

/// `fog` with every tile back at `No`.
pub open spec fn cleared(fog: Map<MapPos, TileVisibility>) -> Map<MapPos, TileVisibility> {
    Map::new(|p: MapPos| fog.dom().contains(p), |p: MapPos| TileVisibility::No)
}

/// The sightings of the units of `units` that belong to `player`, in order.
pub open spec fn sighted_steps(units: Seq<Unit>, player: PlayerId, types: Seq<UnitType>) -> Seq<(UnitType, MapPos)>
    decreases units.len(),
{
    if units.len() == 0 {
        Seq::empty()
    } else {
        let rest = sighted_steps(units.drop_last(), player, types);
        let u = units.last();
        if u.player_id == player {
            rest.push((types[u.type_id.id as int], u.pos))
        } else {
            rest
        }
    }
}

/// `fog` recomputed from scratch: cleared, then what each of `player`'s units sees.
pub open spec fn after_reset(
    fog: Map<MapPos, TileVisibility>,
    terrain: Map<MapPos, Terrain>,
    units: Seq<Unit>,
    player: PlayerId,
    types: Seq<UnitType>,
) -> Map<MapPos, TileVisibility> {
    project_all(cleared(fog), terrain, sighted_steps(units, player, types))
}

/// The sightings of a unit of type `ut` from each waypoint of `path`.
pub open spec fn path_steps(ut: UnitType, path: Seq<MapPos>) -> Seq<(UnitType, MapPos)> {
    path.map_values(|p: MapPos| (ut, p))
}

/// What `event` does to the fog map `fog` of `player`: the result of the call
/// and the map after it.
pub open spec fn event_outcome(
    fog: Map<MapPos, TileVisibility>,
    player: PlayerId,
    types: Seq<UnitType>,
    terrain: Map<MapPos, Terrain>,
    units: Seq<Unit>,
    event: CoreEvent,
) -> (Result<(), FowError>, Map<MapPos, TileVisibility>) {
    match event {
        CoreEvent::Move { unit_id, path } => match find_unit(units, unit_id) {
            None => (Err(FowError::UnknownUnitId), fog),
            Some(u) => if u.player_id != player {
                (Ok(()), fog)
            } else if exists|i: int| 0 <= i < path@.len() && !terrain.dom().contains(#[trigger] path@[i]) {
                (Err(FowError::InvalidPosition), fog)
            } else {
                (Ok(()), project_all(fog, terrain, path_steps(types[u.type_id.id as int], path@)))
            },
        },
        CoreEvent::EndTurn { new_id, .. } => if new_id == player {
            (Ok(()), after_reset(fog, terrain, units, player, types))
        } else {
            (Ok(()), fog)
        },
        CoreEvent::CreateUnit { unit_id, player_id, .. } => match find_unit(units, unit_id) {
            None => (Err(FowError::UnknownUnitId), fog),
            Some(u) => if player_id == player {
                (Ok(()), project(fog, terrain, types[u.type_id.id as int], u.pos))
            } else {
                (Ok(()), fog)
            },
        },
        CoreEvent::AttackUnit { .. } => (Ok(()), fog),
        CoreEvent::ShowUnit { .. } => (Ok(()), fog),
        CoreEvent::HideUnit { .. } => (Ok(()), fog),
    }
}

/// Whether every waypoint of `path` lies on `terrain`.
fn path_on_grid(terrain: &Grid<Terrain>, path: &Vec<MapPos>) -> (r: bool)
    requires
        terrain.wf(),
    ensures
        r == forall|k: int| 0 <= k < path@.len() ==> in_bounds(terrain.spec_size(), #[trigger] path@[k]),
{
    let mut j: usize = 0;
    while j < path.len()
        invariant
            j <= path@.len(),
            terrain.wf(),
            forall|k: int| 0 <= k < j ==> in_bounds(terrain.spec_size(), #[trigger] path@[k]),
        decreases path@.len() - j,
    {
        if !terrain.is_inboard(&path[j]) {
            return false;
        }
        j = j + 1;
    }
    true
}

/// The fog of war of one player.
pub struct Fow {
    map: Grid<TileVisibility>,
    player_id: PlayerId,
}

impl Fow {
    pub closed spec fn wf(&self) -> bool {
        self.map.wf()
    }

    /// The level at which the player sees each tile.
    pub closed spec fn fog(&self) -> Map<MapPos, TileVisibility> {
        self.map@
    }

    /// The player whose fog of war this is.
    pub closed spec fn owner(&self) -> PlayerId {
        self.player_id
    }

    pub closed spec fn spec_size(&self) -> Size2 {
        self.map.spec_size()
    }

    /// The fog of war of `player_id` on a grid of dimensions `map_size`, with no tile seen.
    pub fn new(map_size: &Size2, player_id: &PlayerId) -> (r: Fow)
        requires
            valid_size(*map_size),
        ensures
            r.wf(),
            r.spec_size() == *map_size,
            r.owner() == *player_id,
            r.fog() == filled(*map_size, TileVisibility::No),
    {
        Fow { map: Grid::new(map_size, TileVisibility::No), player_id: *player_id }
    }

    pub fn player_id(&self) -> (r: PlayerId)
        ensures
            r == self.owner(),
    {
        self.player_id
    }

    pub fn size(&self) -> (r: Size2)
        ensures
            r == self.spec_size(),
    {
        self.map.size()
    }

    /// The level at which the tile at `pos` is seen.
    pub fn tile_visibility(&self, pos: &MapPos) -> (r: Result<TileVisibility, FowError>)
        requires
            self.wf(),
        ensures
            r is Err <==> !in_bounds(self.spec_size(), *pos),
            r is Err ==> r == Err::<TileVisibility, FowError>(FowError::InvalidPosition),
            r matches Ok(v) ==> v == self.fog()[*pos],
    {
        if !self.map.is_inboard(pos) {
            return Err(FowError::InvalidPosition);
        }
        Ok(self.map.tile(pos))
    }

    /// Whether the tile at `pos` is seen at all.
    pub fn is_tile_visible(&self, pos: &MapPos) -> (r: Result<bool, FowError>)
        requires
            self.wf(),
        ensures
            r is Err <==> !in_bounds(self.spec_size(), *pos),
            r is Err ==> r == Err::<bool, FowError>(FowError::InvalidPosition),
            r matches Ok(b) ==> b == (self.fog()[*pos] != TileVisibility::No),
    {
        if !self.map.is_inboard(pos) {
            return Err(FowError::InvalidPosition);
        }
        match self.map.tile(pos) {
            TileVisibility::Excellent => Ok(true),
            TileVisibility::Normal => Ok(true),
            TileVisibility::No => Ok(false),
        }
    }

    /// Whether a unit of type `unit_type` standing at `pos` is spotted.
    pub fn is_visible(&self, unit_type: &UnitType, pos: &MapPos) -> (r: Result<bool, FowError>)
        requires
            self.wf(),
        ensures
            r is Err <==> !in_bounds(self.spec_size(), *pos),
            r is Err ==> r == Err::<bool, FowError>(FowError::InvalidPosition),
            r matches Ok(b) ==> b == spotted(self.fog()[*pos], unit_type.class),
    {
        if !self.map.is_inboard(pos) {
            return Err(FowError::InvalidPosition);
        }
        match self.map.tile(pos) {
            TileVisibility::Excellent => Ok(true),
            TileVisibility::Normal => match unit_type.class {
                UnitClass::Infantry => Ok(false),
                UnitClass::Vehicle => Ok(true),
            },
            TileVisibility::No => Ok(false),
        }
    }

    /// Puts every tile back at `No`.
    pub fn clear(&mut self)
        requires
            old(self).wf(),
        ensures
            final(self).wf(),
            final(self).spec_size() == old(self).spec_size(),
            final(self).owner() == old(self).owner(),
            final(self).fog() == cleared(old(self).fog()),
    {
        proof {
            self.map.lemma_view_dom();
        }
        self.map.fill(TileVisibility::No);
        proof {
            self.map.lemma_view_dom();
        }
        assert(self.fog() =~= cleared(old(self).fog()));
    }

    /// Recomputes the map from scratch: clears it, then merges in what each of
    /// the owner's units sees from where it stands.
    pub fn reset(&mut self, object_types: &ObjectTypes, state: &InternalState)
        requires
            old(self).wf(),
            state.wf(object_types),
            state.map.spec_size() == old(self).spec_size(),
        ensures
            final(self).wf(),
            final(self).spec_size() == old(self).spec_size(),
            final(self).owner() == old(self).owner(),
            final(self).fog() == after_reset(
                old(self).fog(),
                state.map@,
                state.units@,
                old(self).owner(),
                object_types.unit_types@,
            ),
    {
        let ghost start = self.fog();
        self.clear();
        let ghost types = object_types.unit_types@;
        let mut i: usize = 0;
        while i < state.units.len()
            invariant
                i <= state.units@.len(),
                self.wf(),
                state.wf(object_types),
                types == object_types.unit_types@,
                self.spec_size() == state.map.spec_size(),
                self.owner() == old(self).owner(),
                self.fog() == project_all(
                    cleared(start),
                    state.map@,
                    sighted_steps(state.units@.subrange(0, i as int), self.owner(), types),
                ),
            decreases state.units@.len() - i,
        {
            let unit = state.units[i];
            let ghost before = self.fog();
            let ghost prev = state.units@.subrange(0, i as int);
            let ghost next = state.units@.subrange(0, i + 1);
            assert(state.units@[i as int] == unit);
            assert(in_bounds(state.map.spec_size(), state.units@[i as int].pos));
            assert(object_types.has_type(state.units@[i as int].type_id));
            if unit.player_id == self.player_id {
                let _ = fov_unit(object_types, &state.map, &mut self.map, &unit);
            }
            assert(next.drop_last() =~= prev);
            assert(next.last() == unit);
            if unit.player_id == self.player_id {
                assert(sighted_steps(next, self.owner(), types)
                    == sighted_steps(prev, self.owner(), types).push((types[unit.type_id.id as int], unit.pos)));
                assert(self.fog() == project(before, state.map@, types[unit.type_id.id as int], unit.pos));
                assert(sighted_steps(next, self.owner(), types).drop_last()
                    =~= sighted_steps(prev, self.owner(), types));
            } else {
                assert(sighted_steps(next, self.owner(), types) == sighted_steps(prev, self.owner(), types));
            }
            i = i + 1;
        }
        assert(state.units@.subrange(0, state.units@.len() as int) =~= state.units@);
    }

    /// Brings the map up to date with `event`, which the game has just applied to
    /// `state`: a move of one of the owner's units reveals what it sees from each
    /// waypoint, a new unit of the owner reveals what it sees, and the start of
    /// the owner's turn recomputes the whole map. Other events change nothing.
    /// An event that names a unit `state` does not hold is refused with
    /// `UnknownUnitId`, a path that leaves the grid with `InvalidPosition`;
    /// either leaves the map as it was.
    pub fn apply_event(
        &mut self,
        object_types: &ObjectTypes,
        state: &InternalState,
        event: &CoreEvent,
    ) -> (r: Result<(), FowError>)
        requires
            old(self).wf(),
            state.wf(object_types),
            state.map.spec_size() == old(self).spec_size(),
        ensures
            final(self).wf(),
            final(self).spec_size() == old(self).spec_size(),
            final(self).owner() == old(self).owner(),
            (r, final(self).fog()) == event_outcome(
                old(self).fog(),
                old(self).owner(),
                object_types.unit_types@,
                state.map@,
                state.units@,
                *event,
            ),
    {
        proof {
            state.map.lemma_view_dom();
        }
        match event {
            CoreEvent::Move { unit_id, path } => {
                let unit = match state.unit(unit_id) {
                    Some(u) => u,
                    None => {
                        return Err(FowError::UnknownUnitId);
                    },
                };
                proof {
                    let k = choose|k: int| 0 <= k < state.units@.len() && (#[trigger] state.units@[k]).id == *unit_id;
                    assert(state.units@[k] == unit);
                }
                if unit.player_id != self.player_id {
                    return Ok(());
                }
                if !path_on_grid(&state.map, path) {
                    return Err(FowError::InvalidPosition);
                }
                let ghost start = self.fog();
                let ghost ut = object_types.spec_unit_type(unit.type_id);
                let mut i: usize = 0;
                while i < path.len()
                    invariant
                        i <= path@.len(),
                        self.wf(),
                        state.wf(object_types),
                        object_types.has_type(unit.type_id),
                        ut == object_types.spec_unit_type(unit.type_id),
                        self.spec_size() == state.map.spec_size(),
                        self.owner() == old(self).owner(),
                        forall|k: int| 0 <= k < path@.len() ==> in_bounds(state.map.spec_size(), #[trigger] path@[k]),
                        self.fog() == project_all(start, state.map@, path_steps(ut, path@.subrange(0, i as int))),
                    decreases path@.len() - i,
                {
                    let p = path[i];
                    assert(in_bounds(state.map.spec_size(), path@[i as int]));
                    let _ = fov_unit_in_pos(object_types, &state.map, &mut self.map, &unit, &p);
                    assert(path_steps(ut, path@.subrange(0, i + 1)).drop_last()
                        =~= path_steps(ut, path@.subrange(0, i as int)));
                    i = i + 1;
                }
                assert(path@.subrange(0, path@.len() as int) =~= path@);
                Ok(())
            },
            CoreEvent::EndTurn { new_id, .. } => {
                if self.player_id == *new_id {
                    self.reset(object_types, state);
                }
                Ok(())
            },
            CoreEvent::CreateUnit { unit_id, player_id, .. } => {
                let unit = match state.unit(unit_id) {
                    Some(u) => u,
                    None => {
                        return Err(FowError::UnknownUnitId);
                    },
                };
                proof {
                    let k = choose|k: int| 0 <= k < state.units@.len() && (#[trigger] state.units@[k]).id == *unit_id;
                    assert(state.units@[k] == unit);
                }
                if self.player_id == *player_id {
                    let _ = fov_unit(object_types, &state.map, &mut self.map, &unit);
                }
                Ok(())
            },
            CoreEvent::AttackUnit { .. } => Ok(()),
            CoreEvent::ShowUnit { .. } => Ok(()),
            CoreEvent::HideUnit { .. } => Ok(()),
        }
    }
}

} // verus!
