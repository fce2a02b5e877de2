use fog_of_war::fov::fov;
use fog_of_war::fow::{calc_visibility, fov_unit, fov_unit_in_pos, Fow, TileVisibility};
use fog_of_war::grid::{distance, Grid};
use fog_of_war::objects::{CoreEvent, InternalState, ObjectTypes};
use fog_of_war::types::{
    FowError, MapPos, PlayerId, Size2, Terrain, Unit, UnitClass, UnitId, UnitType, UnitTypeId,
};

fn pos(x: i32, y: i32) -> MapPos {
    MapPos { x, y }
}

fn size(w: i32, h: i32) -> Size2 {
    Size2 { w, h }
}

fn unit_type(los_range: i32, cover_los_range: i32, class: UnitClass) -> UnitType {
    UnitType { los_range, cover_los_range, class }
}

fn unit(id: i32, at: MapPos, player: i32, type_id: usize) -> Unit {
    Unit {
        id: UnitId { id },
        pos: at,
        player_id: PlayerId { id: player },
        type_id: UnitTypeId { id: type_id },
    }
}

fn plain(w: i32, h: i32) -> Grid<Terrain> {
    Grid::new(&size(w, h), Terrain::Plain)
}

fn level(fow: &Fow, x: i32, y: i32) -> TileVisibility {
    fow.tile_visibility(&pos(x, y)).unwrap()
}

fn snapshot(fow: &Fow) -> Vec<TileVisibility> {
    let s = fow.size();
    let mut out = Vec::new();
    for y in 0..s.h {
        for x in 0..s.w {
            out.push(level(fow, x, y));
        }
    }
    out
}

#[test]
fn classify_within_cover_range_is_excellent() {
    let ut = unit_type(4, 2, UnitClass::Vehicle);
    for d in 0..=2i64 {
        assert_eq!(calc_visibility(&Terrain::Trees, &ut, &d), TileVisibility::Excellent);
        assert_eq!(calc_visibility(&Terrain::Plain, &ut, &d), TileVisibility::Excellent);
    }
}

#[test]
fn classify_beyond_los_range_is_no() {
    let ut = unit_type(4, 2, UnitClass::Vehicle);
    for d in 5..=9i64 {
        assert_eq!(calc_visibility(&Terrain::Trees, &ut, &d), TileVisibility::No);
        assert_eq!(calc_visibility(&Terrain::Plain, &ut, &d), TileVisibility::No);
    }
}

#[test]
fn classify_medium_range_depends_on_terrain() {
    let ut = unit_type(4, 2, UnitClass::Infantry);
    assert_eq!(calc_visibility(&Terrain::Trees, &ut, &3), TileVisibility::Normal);
    assert_eq!(calc_visibility(&Terrain::Plain, &ut, &3), TileVisibility::Excellent);
    assert_eq!(calc_visibility(&Terrain::Trees, &ut, &4), TileVisibility::Normal);
}

#[test]
fn rank_orders_levels() {
    assert_eq!(TileVisibility::No.rank(), 0);
    assert_eq!(TileVisibility::Normal.rank(), 1);
    assert_eq!(TileVisibility::Excellent.rank(), 2);
}

#[test]
fn distance_is_king_moves() {
    assert_eq!(distance(&pos(5, 5), &pos(5, 5)), 0);
    assert_eq!(distance(&pos(5, 5), &pos(6, 6)), 1);
    assert_eq!(distance(&pos(5, 5), &pos(2, 7)), 3);
    assert_eq!(distance(&pos(-2, 0), &pos(1, -1)), 3);
}

#[test]
fn grid_set_and_read_tiles() {
    let mut g = plain(3, 2);
    assert_eq!(g.size(), size(3, 2));
    g.set_tile(&pos(2, 1), Terrain::Trees);
    assert_eq!(g.tile(&pos(2, 1)), Terrain::Trees);
    assert_eq!(g.tile(&pos(1, 1)), Terrain::Plain);
    assert!(g.is_inboard(&pos(2, 1)));
    assert!(!g.is_inboard(&pos(3, 0)));
    assert!(!g.is_inboard(&pos(0, -1)));
    g.fill(Terrain::Trees);
    assert_eq!(g.tile(&pos(0, 0)), Terrain::Trees);
}

#[test]
fn sweep_lists_tiles_within_range_once() {
    let terrain = plain(10, 10);
    let tiles = fov(&terrain, &pos(1, 1), 2).unwrap();
    // rows 0..=3, columns 0..=3 on the grid
    assert_eq!(tiles.len(), 16);
    assert_eq!(tiles[0], pos(0, 0));
    assert_eq!(tiles[15], pos(3, 3));
    for (i, a) in tiles.iter().enumerate() {
        assert!(distance(a, &pos(1, 1)) <= 2);
        for b in tiles.iter().skip(i + 1) {
            assert_ne!(a, b);
        }
    }
}

#[test]
fn sweep_radius_zero_visits_origin_only() {
    let terrain = plain(4, 4);
    assert_eq!(fov(&terrain, &pos(2, 3), 0).unwrap(), vec![pos(2, 3)]);
}

#[test]
fn sweep_from_off_grid_is_invalid_position() {
    let terrain = plain(4, 4);
    assert_eq!(fov(&terrain, &pos(4, 0), 1), Err(FowError::InvalidPosition));
}

#[test]
fn scenario_levels_by_distance_and_terrain() {
    let mut terrain = plain(10, 10);
    terrain.set_tile(&pos(7, 5), Terrain::Trees);
    let types = ObjectTypes { unit_types: vec![unit_type(2, 1, UnitClass::Vehicle)] };
    let u = unit(1, pos(5, 5), 1, 0);
    let mut fog = Grid::new(&size(10, 10), TileVisibility::No);
    assert_eq!(fov_unit(&types, &terrain, &mut fog, &u), Ok(()));
    assert_eq!(fog.tile(&pos(6, 5)), TileVisibility::Excellent);
    assert_eq!(fog.tile(&pos(7, 5)), TileVisibility::Normal);
    assert_eq!(fog.tile(&pos(3, 5)), TileVisibility::Excellent);
    assert_eq!(fog.tile(&pos(8, 5)), TileVisibility::No);
}

#[test]
fn projection_from_override_position() {
    let terrain = plain(6, 6);
    let types = ObjectTypes { unit_types: vec![unit_type(1, 0, UnitClass::Vehicle)] };
    let u = unit(1, pos(0, 0), 1, 0);
    let mut fog = Grid::new(&size(6, 6), TileVisibility::No);
    assert_eq!(fov_unit_in_pos(&types, &terrain, &mut fog, &u, &pos(4, 4)), Ok(()));
    assert_eq!(fog.tile(&pos(5, 5)), TileVisibility::Excellent);
    assert_eq!(fog.tile(&pos(0, 0)), TileVisibility::No);
    assert_eq!(
        fov_unit_in_pos(&types, &terrain, &mut fog, &u, &pos(6, 0)),
        Err(FowError::InvalidPosition)
    );
}

#[test]
fn projections_never_lower_a_tile() {
    let mut terrain = plain(8, 8);
    terrain.set_tile(&pos(3, 1), Terrain::Trees);
    let types = ObjectTypes {
        unit_types: vec![unit_type(3, 0, UnitClass::Vehicle), unit_type(2, 2, UnitClass::Infantry)],
    };
    let mut fog = Grid::new(&size(8, 8), TileVisibility::No);
    // far away in the open first: Excellent on (3,1) is not the trees' level
    let scout = unit(1, pos(3, 2), 1, 1);
    assert_eq!(fov_unit(&types, &terrain, &mut fog, &scout), Ok(()));
    assert_eq!(fog.tile(&pos(3, 1)), TileVisibility::Excellent);
    let tank = unit(2, pos(0, 1), 1, 0);
    assert_eq!(fov_unit(&types, &terrain, &mut fog, &tank), Ok(()));
    assert_eq!(fog.tile(&pos(3, 1)), TileVisibility::Excellent);
    assert_eq!(fog.tile(&pos(0, 4)), TileVisibility::Excellent);
}

fn game(units: Vec<Unit>, types_list: Vec<UnitType>, w: i32, h: i32) -> (ObjectTypes, InternalState) {
    (ObjectTypes { unit_types: types_list }, InternalState { map: plain(w, h), units })
}

#[test]
fn new_fow_sees_nothing() {
    let fow = Fow::new(&size(3, 3), &PlayerId { id: 7 });
    assert_eq!(fow.player_id(), PlayerId { id: 7 });
    assert_eq!(fow.size(), size(3, 3));
    assert!(snapshot(&fow).iter().all(|v| *v == TileVisibility::No));
    assert_eq!(fow.is_tile_visible(&pos(1, 1)), Ok(false));
}

#[test]
fn queries_off_grid_are_invalid_position() {
    let fow = Fow::new(&size(3, 3), &PlayerId { id: 1 });
    let ut = unit_type(1, 0, UnitClass::Vehicle);
    assert_eq!(fow.is_tile_visible(&pos(3, 0)), Err(FowError::InvalidPosition));
    assert_eq!(fow.is_visible(&ut, &pos(0, -1)), Err(FowError::InvalidPosition));
    assert_eq!(fow.tile_visibility(&pos(-1, 2)), Err(FowError::InvalidPosition));
}

#[test]
fn infantry_hides_at_normal_vehicles_do_not() {
    let (types, mut state) = game(
        vec![unit(1, pos(0, 0), 1, 0)],
        vec![unit_type(2, 0, UnitClass::Vehicle)],
        4,
        1,
    );
    state.map.set_tile(&pos(2, 0), Terrain::Trees);
    let mut fow = Fow::new(&size(4, 1), &PlayerId { id: 1 });
    fow.reset(&types, &state);
    let infantry = unit_type(1, 0, UnitClass::Infantry);
    let vehicle = unit_type(1, 0, UnitClass::Vehicle);
    assert_eq!(level(&fow, 2, 0), TileVisibility::Normal);
    assert_eq!(fow.is_tile_visible(&pos(2, 0)), Ok(true));
    assert_eq!(fow.is_visible(&infantry, &pos(2, 0)), Ok(false));
    assert_eq!(fow.is_visible(&vehicle, &pos(2, 0)), Ok(true));
    assert_eq!(level(&fow, 1, 0), TileVisibility::Excellent);
    assert_eq!(fow.is_visible(&infantry, &pos(1, 0)), Ok(true));
    assert_eq!(fow.is_visible(&vehicle, &pos(1, 0)), Ok(true));
    assert_eq!(level(&fow, 3, 0), TileVisibility::No);
    assert_eq!(fow.is_tile_visible(&pos(3, 0)), Ok(false));
    assert_eq!(fow.is_visible(&vehicle, &pos(3, 0)), Ok(false));
}

#[test]
fn move_reveals_tiles_along_the_whole_path() {
    let (types, state) = game(
        vec![unit(1, pos(2, 0), 1, 0)],
        vec![unit_type(1, 0, UnitClass::Vehicle)],
        6,
        4,
    );
    let mut fow = Fow::new(&size(6, 4), &PlayerId { id: 1 });
    let event = CoreEvent::Move { unit_id: UnitId { id: 1 }, path: vec![pos(0, 0), pos(1, 0), pos(2, 0)] };
    assert_eq!(fow.apply_event(&types, &state, &event), Ok(()));
    for (x, y) in [(0, 0), (0, 1), (1, 0), (1, 1), (2, 0), (2, 1), (3, 0), (3, 1)] {
        assert_eq!(level(&fow, x, y), TileVisibility::Excellent, "tile ({}, {})", x, y);
    }
    assert_eq!(level(&fow, 4, 0), TileVisibility::No);
    assert_eq!(level(&fow, 0, 2), TileVisibility::No);
}

#[test]
fn removed_unit_vanishes_from_view_at_owner_turn() {
    let (types, state) = game(
        vec![unit(1, pos(3, 3), 1, 0)],
        vec![unit_type(5, 0, UnitClass::Vehicle)],
        10,
        10,
    );
    let p1 = PlayerId { id: 1 };
    let mut fow = Fow::new(&size(10, 10), &p1);
    let create = CoreEvent::CreateUnit {
        unit_id: UnitId { id: 1 },
        pos: pos(3, 3),
        type_id: UnitTypeId { id: 0 },
        player_id: p1,
    };
    assert_eq!(fow.apply_event(&types, &state, &create), Ok(()));
    assert_eq!(level(&fow, 3, 4), TileVisibility::Excellent);
    let emptied = InternalState { map: plain(10, 10), units: vec![] };
    let end = CoreEvent::EndTurn { old_id: PlayerId { id: 2 }, new_id: p1 };
    assert_eq!(fow.apply_event(&types, &emptied, &end), Ok(()));
    assert_eq!(level(&fow, 3, 4), TileVisibility::No);
}

#[test]
fn end_turn_of_another_player_changes_nothing() {
    let (types, state) = game(
        vec![unit(1, pos(1, 1), 1, 0)],
        vec![unit_type(1, 0, UnitClass::Vehicle)],
        4,
        4,
    );
    let mut fow = Fow::new(&size(4, 4), &PlayerId { id: 1 });
    let end = CoreEvent::EndTurn { old_id: PlayerId { id: 1 }, new_id: PlayerId { id: 2 } };
    assert_eq!(fow.apply_event(&types, &state, &end), Ok(()));
    assert_eq!(level(&fow, 1, 1), TileVisibility::No);
}

#[test]
fn reset_twice_gives_the_same_map() {
    let (types, mut state) = game(
        vec![unit(1, pos(1, 1), 1, 0), unit(2, pos(8, 4), 2, 1), unit(3, pos(3, 3), 1, 1)],
        vec![unit_type(1, 0, UnitClass::Vehicle), unit_type(3, 1, UnitClass::Infantry)],
        10,
        6,
    );
    state.map.set_tile(&pos(4, 5), Terrain::Trees);
    let mut fow = Fow::new(&size(10, 6), &PlayerId { id: 1 });
    fow.reset(&types, &state);
    let first = snapshot(&fow);
    fow.reset(&types, &state);
    assert_eq!(snapshot(&fow), first);
    assert_eq!(level(&fow, 4, 5), TileVisibility::Normal);
    assert_eq!(level(&fow, 0, 0), TileVisibility::Excellent);
    // (9,5) is in the sight of player 2's unit alone
    assert_eq!(level(&fow, 9, 5), TileVisibility::No);
}

#[test]
fn clear_puts_every_tile_back_to_no() {
    let (types, state) = game(
        vec![unit(1, pos(1, 1), 1, 0)],
        vec![unit_type(2, 0, UnitClass::Vehicle)],
        3,
        3,
    );
    let mut fow = Fow::new(&size(3, 3), &PlayerId { id: 1 });
    fow.reset(&types, &state);
    assert_eq!(level(&fow, 2, 2), TileVisibility::Excellent);
    fow.clear();
    assert!(snapshot(&fow).iter().all(|v| *v == TileVisibility::No));
}

#[test]
fn move_of_unknown_unit_is_refused() {
    let (types, state) = game(vec![], vec![unit_type(1, 0, UnitClass::Vehicle)], 3, 3);
    let mut fow = Fow::new(&size(3, 3), &PlayerId { id: 1 });
    let event = CoreEvent::Move { unit_id: UnitId { id: 9 }, path: vec![pos(0, 0)] };
    assert_eq!(fow.apply_event(&types, &state, &event), Err(FowError::UnknownUnitId));
    assert!(snapshot(&fow).iter().all(|v| *v == TileVisibility::No));
}

#[test]
fn create_of_unknown_unit_is_refused() {
    let (types, state) = game(vec![], vec![unit_type(1, 0, UnitClass::Vehicle)], 3, 3);
    let mut fow = Fow::new(&size(3, 3), &PlayerId { id: 1 });
    let event = CoreEvent::CreateUnit {
        unit_id: UnitId { id: 4 },
        pos: pos(1, 1),
        type_id: UnitTypeId { id: 0 },
        player_id: PlayerId { id: 1 },
    };
    assert_eq!(fow.apply_event(&types, &state, &event), Err(FowError::UnknownUnitId));
}

#[test]
fn move_off_the_grid_is_refused_and_changes_nothing() {
    let (types, state) = game(
        vec![unit(1, pos(1, 0), 1, 0)],
        vec![unit_type(1, 0, UnitClass::Vehicle)],
        3,
        3,
    );
    let mut fow = Fow::new(&size(3, 3), &PlayerId { id: 1 });
    let event = CoreEvent::Move { unit_id: UnitId { id: 1 }, path: vec![pos(1, 0), pos(1, -1)] };
    assert_eq!(fow.apply_event(&types, &state, &event), Err(FowError::InvalidPosition));
    assert!(snapshot(&fow).iter().all(|v| *v == TileVisibility::No));
}

#[test]
fn move_of_another_players_unit_changes_nothing() {
    let (types, state) = game(
        vec![unit(1, pos(1, 1), 2, 0)],
        vec![unit_type(1, 0, UnitClass::Vehicle)],
        3,
        3,
    );
    let mut fow = Fow::new(&size(3, 3), &PlayerId { id: 1 });
    let event = CoreEvent::Move { unit_id: UnitId { id: 1 }, path: vec![pos(1, 1)] };
    assert_eq!(fow.apply_event(&types, &state, &event), Ok(()));
    assert!(snapshot(&fow).iter().all(|v| *v == TileVisibility::No));
}

#[test]
fn attack_show_and_hide_change_nothing() {
    let (types, state) = game(
        vec![unit(1, pos(1, 1), 1, 0)],
        vec![unit_type(1, 0, UnitClass::Vehicle)],
        3,
        3,
    );
    let mut fow = Fow::new(&size(3, 3), &PlayerId { id: 1 });
    let events = vec![
        CoreEvent::AttackUnit { attacker_id: UnitId { id: 1 }, defender_id: UnitId { id: 2 }, killed: true },
        CoreEvent::ShowUnit {
            unit_id: UnitId { id: 1 },
            pos: pos(1, 1),
            type_id: UnitTypeId { id: 0 },
            player_id: PlayerId { id: 1 },
        },
        CoreEvent::HideUnit { unit_id: UnitId { id: 1 } },
    ];
    for e in events.iter() {
        assert_eq!(fow.apply_event(&types, &state, e), Ok(()));
    }
    assert!(snapshot(&fow).iter().all(|v| *v == TileVisibility::No));
}

#[test]
fn unit_lookup_by_id() {
    let (_, state) = game(vec![unit(1, pos(0, 0), 1, 0), unit(5, pos(2, 2), 2, 0)], vec![], 3, 3);
    assert_eq!(state.unit(&UnitId { id: 5 }), Some(unit(5, pos(2, 2), 2, 0)));
    assert_eq!(state.unit(&UnitId { id: 3 }), None);
}
