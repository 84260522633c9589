use bnu::board::{playfield, Coord, TileState};

fn empty_field() -> playfield {
    playfield { tiles: vec![TileState::Empty; 100] }
}

#[test]
fn new_board_is_all_empty() {
    let f = playfield::new();
    assert_eq!(f.tiles.len(), 100);
    for t in f.tiles.iter() {
        assert_eq!(*t, TileState::Empty);
    }
    assert_eq!(f.alive_count(), 0);
}

#[test]
fn coord_index_round_trip() {
    for i in 0..100usize {
        let c = Coord::from_index(i);
        assert!(c.col < 10 && c.row < 10);
        assert_eq!(c.to_index(), i);
    }
    let c = Coord { col: 7, row: 3 };
    assert_eq!(c.to_index(), 37);
    assert_eq!(Coord::from_index(37), Coord { col: 7, row: 3 });
}

#[test]
fn mark_shot_miss_and_hit() {
    let mut f = empty_field();
    f.tiles[42] = TileState::HasShip;
    let miss = f.mark_shot(Coord { col: 0, row: 0 });
    assert_eq!(miss, TileState::ShotAt);
    assert_eq!(f.tiles[0], TileState::ShotAt);
    let hit = f.mark_shot(Coord { col: 2, row: 4 });
    assert_eq!(hit, TileState::ShotAndHit);
    assert_eq!(f.tiles[42], TileState::ShotAndHit);
}

#[test]
fn mark_shot_is_idempotent() {
    let mut f = empty_field();
    f.tiles[13] = TileState::HasShip;
    let c_hit = Coord { col: 3, row: 1 };
    let c_miss = Coord { col: 9, row: 9 };
    let first_hit = f.mark_shot(c_hit);
    let first_miss = f.mark_shot(c_miss);
    let once = f.tiles.clone();
    let second_hit = f.mark_shot(c_hit);
    let second_miss = f.mark_shot(c_miss);
    assert_eq!(first_hit, second_hit);
    assert_eq!(first_miss, second_miss);
    assert_eq!(f.tiles, once);
}

#[test]
fn alive_count_drops_by_one_per_fresh_hit() {
    let mut f = empty_field();
    f.tiles[10] = TileState::HasShip;
    f.tiles[11] = TileState::HasShip;
    f.tiles[12] = TileState::HasShip;
    assert_eq!(f.alive_count(), 3);
    f.mark_shot(Coord { col: 1, row: 1 });
    assert_eq!(f.alive_count(), 2);
    // shooting the same ship cell again changes nothing
    f.mark_shot(Coord { col: 1, row: 1 });
    assert_eq!(f.alive_count(), 2);
    // shooting an empty cell changes nothing
    f.mark_shot(Coord { col: 9, row: 0 });
    assert_eq!(f.alive_count(), 2);
    f.mark_shot(Coord { col: 2, row: 1 });
    f.mark_shot(Coord { col: 0, row: 1 });
    assert_eq!(f.alive_count(), 0);
}

#[test]
fn tile_at_reads_cells() {
    let mut f = empty_field();
    f.tiles[55] = TileState::HasShip;
    assert_eq!(f.tile_at(Coord { col: 5, row: 5 }), TileState::HasShip);
    assert_eq!(f.tile_at(Coord { col: 4, row: 5 }), TileState::Empty);
}
