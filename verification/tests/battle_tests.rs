use bnu::battle::{Battle, Phase, TickResult, TurnEvent};
use bnu::board::{playfield, Coord, TileState};
use bnu::game::MouseEvent;
use bnu::taunts::TauntQueue;

fn field_with_ships(cells: &[usize]) -> playfield {
    let mut tiles = vec![TileState::Empty; 100];
    for &i in cells {
        tiles[i] = TileState::HasShip;
    }
    playfield { tiles }
}

fn battle_at(state: Phase, player: playfield, unicorn: playfield) -> Battle {
    Battle {
        turn_event: TurnEvent::NoEvent,
        time_state_entered: 0,
        state,
        text: TauntQueue::new(),
        has_click: false,
        cursor_x: 0,
        cursor_y: 0,
        player_field: player,
        unicorn_field: unicorn,
        last_hit: None,
    }
}

/// Pixel coordinates of the middle of a cell of the opponent board.
fn pixels_of(col: usize, row: usize) -> (u32, u32) {
    (420 + 32 * col as u32 + 16, 60 + 32 * row as u32 + 16)
}

#[test]
fn click_on_ship_hits_and_resolves() {
    let mut b = battle_at(
        Phase::PlayerAiming,
        field_with_ships(&[55]),
        field_with_ships(&[0, 1]),
    );
    let (x, y) = pixels_of(0, 0);
    b.mouseevent(MouseEvent::Click { x, y });
    assert!(b.has_click);
    assert_eq!(b.tick(10), TickResult::Continue);
    assert_eq!(b.state, Phase::PlayerShotResolving);
    assert_eq!(b.unicorn_field.tiles[0], TileState::ShotAndHit);
    assert_eq!(b.unicorn_field.alive_count(), 1);
    assert_eq!(b.turn_event, TurnEvent::UniWasHit);
    assert_eq!(b.time_state_entered, 10);
}

#[test]
fn click_on_empty_cell_keeps_alive_count() {
    let mut b = battle_at(
        Phase::PlayerAiming,
        field_with_ships(&[55]),
        field_with_ships(&[0, 1]),
    );
    let (x, y) = pixels_of(7, 7);
    b.mouseevent(MouseEvent::Click { x, y });
    b.tick(10);
    assert_eq!(b.state, Phase::PlayerShotResolving);
    assert_eq!(b.unicorn_field.tiles[77], TileState::ShotAt);
    assert_eq!(b.unicorn_field.alive_count(), 2);
    assert_eq!(b.turn_event, TurnEvent::NoEvent);
}

#[test]
fn resolving_owes_a_random_taunt_when_no_event_is_pending() {
    let mut b = battle_at(
        Phase::PlayerShotResolving,
        field_with_ships(&[55]),
        field_with_ships(&[0, 1]),
    );
    b.tick(20);
    assert_eq!(b.state, Phase::OpponentAiming);
    assert_eq!(b.turn_event, TurnEvent::RandomTaunt);
    assert_eq!(b.time_state_entered, 20);
}

#[test]
fn resolving_keeps_a_pending_hit_event() {
    let mut b = battle_at(
        Phase::PlayerShotResolving,
        field_with_ships(&[55]),
        field_with_ships(&[0, 1]),
    );
    b.turn_event = TurnEvent::UniWasHit;
    b.tick(20);
    assert_eq!(b.state, Phase::OpponentAiming);
    assert_eq!(b.turn_event, TurnEvent::UniWasHit);
}

#[test]
fn tick_without_click_changes_nothing() {
    let mut b = battle_at(
        Phase::PlayerAiming,
        field_with_ships(&[55]),
        field_with_ships(&[0, 1]),
    );
    assert_eq!(b.tick(123), TickResult::Continue);
    assert_eq!(b.state, Phase::PlayerAiming);
    assert_eq!(b.time_state_entered, 0);
    assert_eq!(b.unicorn_field.alive_count(), 2);
}

#[test]
fn pointer_events_outside_rectangle_are_ignored() {
    let mut b = battle_at(
        Phase::PlayerAiming,
        field_with_ships(&[55]),
        field_with_ships(&[0]),
    );
    b.mouseevent(MouseEvent::Motion { x: 10, y: 10 });
    assert_eq!((b.cursor_x, b.cursor_y), (0, 0));
    b.mouseevent(MouseEvent::Click { x: 419, y: 200 });
    assert!(!b.has_click);
    b.mouseevent(MouseEvent::Click { x: 500, y: 380 });
    assert!(!b.has_click);
    b.mouseevent(MouseEvent::Motion { x: 500, y: 200 });
    assert_eq!((b.cursor_x, b.cursor_y), (500, 200));
    assert!(!b.has_click);
}

#[test]
fn pointer_events_outside_aiming_phase_are_ignored() {
    let mut b = battle_at(
        Phase::OpponentShotResolving,
        field_with_ships(&[55]),
        field_with_ships(&[0]),
    );
    b.mouseevent(MouseEvent::Click { x: 500, y: 200 });
    assert!(!b.has_click);
    assert_eq!((b.cursor_x, b.cursor_y), (0, 0));
}

#[test]
fn opponent_defeated_only_after_all_ship_cells_hit() {
    // the opponent's fleet occupies five fixed cells; the player's board is
    // full of ships so the opponent's counter-fire can never end the game
    let ship_cells = [0, 1, 17, 44, 99];
    let all: Vec<usize> = (0..100).collect();
    let mut b = battle_at(
        Phase::PlayerAiming,
        field_with_ships(&all),
        field_with_ships(&ship_cells),
    );
    let mut now: u64 = 0;
    let mut hits = 0usize;
    loop {
        match b.state {
            Phase::PlayerAiming => {
                // the machine must not have declared defeat while ships remain
                assert_eq!(b.unicorn_field.alive_count(), ship_cells.len() - hits);
                let i = ship_cells[hits];
                let (x, y) = pixels_of(i % 10, i / 10);
                b.mouseevent(MouseEvent::Motion { x, y });
                b.mouseevent(MouseEvent::Click { x, y });
                now += 10;
                b.tick(now);
                hits += 1;
                assert_eq!(b.state, Phase::PlayerShotResolving);
            }
            Phase::OpponentDefeated => break,
            _ => {
                now += 1000;
                b.tick(now);
            }
        }
        assert!(now < 100_000, "the game must end");
    }
    assert_eq!(hits, ship_cells.len());
    assert_eq!(b.unicorn_field.alive_count(), 0);
    // the defeat text was queued
    let mut found = false;
    for i in 0..b.text.len() {
        if b.text.text_at(i).as_str() == "You definitely cheated." {
            found = true;
        }
    }
    assert!(found);
    // the terminal phase emits the end-of-game signal after one second
    let t = b.time_state_entered;
    assert_eq!(b.tick(t + 999), TickResult::Continue);
    assert_eq!(
        b.tick(t + 1000),
        TickResult::GameOver { player_lost: false }
    );
}

#[test]
fn projectile_wait_holds_for_a_second_and_leaves_once() {
    let mut b = battle_at(
        Phase::OpponentShotResolving,
        field_with_ships(&[55]),
        field_with_ships(&[0]),
    );
    b.time_state_entered = 5000;
    b.has_click = true;
    b.cursor_x = 430;
    b.cursor_y = 70;
    assert_eq!(b.tick(5000), TickResult::Continue);
    assert_eq!(b.state, Phase::OpponentShotResolving);
    assert_eq!(b.tick(5500), TickResult::Continue);
    assert_eq!(b.state, Phase::OpponentShotResolving);
    assert_eq!(b.tick(5999), TickResult::Continue);
    assert_eq!(b.state, Phase::OpponentShotResolving);
    assert_eq!(b.time_state_entered, 5000);
    assert!(b.has_click);
    // the transition happens exactly once, resets the timer and the click
    assert_eq!(b.tick(6000), TickResult::Continue);
    assert_eq!(b.state, Phase::PlayerAiming);
    assert_eq!(b.time_state_entered, 6000);
    assert!(!b.has_click);
    // a later tick processes the aiming phase instead of transitioning again
    assert_eq!(b.tick(6100), TickResult::Continue);
    assert_eq!(b.state, Phase::PlayerAiming);
}

#[test]
fn opponent_shot_ends_the_game_when_the_last_ship_falls() {
    // only one player cell is untargeted and it holds the last ship: the
    // opponent's shot must hit it
    let mut tiles = vec![TileState::ShotAt; 100];
    tiles[33] = TileState::HasShip;
    let player = playfield { tiles };
    let mut b = battle_at(Phase::OpponentAiming, player, field_with_ships(&[0]));
    assert_eq!(b.tick(0), TickResult::Continue);
    assert_eq!(b.state, Phase::OpponentShotResolving);
    assert_eq!(b.player_field.tiles[33], TileState::ShotAndHit);
    assert_eq!(b.turn_event, TurnEvent::PlayerWasHit);
    assert_eq!(b.last_hit, Some(Coord { col: 3, row: 3 }));
    // after the projectile lands, the player has lost
    assert_eq!(b.tick(1000), TickResult::Continue);
    assert_eq!(b.state, Phase::PlayerDefeated);
    assert_eq!(
        b.text.text_at(b.text.len() - 1).as_str(),
        "I broke all of your toys. You cryin' now?."
    );
    assert_eq!(b.tick(1500), TickResult::Continue);
    assert_eq!(b.tick(2000), TickResult::GameOver { player_lost: true });
}

#[test]
fn pending_event_becomes_a_taunt_on_the_opponents_turn() {
    let mut b = battle_at(
        Phase::OpponentAiming,
        field_with_ships(&[55]),
        field_with_ships(&[0]),
    );
    b.turn_event = TurnEvent::UniWasHit;
    b.tick(0);
    assert_eq!(b.text.len(), 1);
    let pool = [
        "There's nothing like the smell of napalm in the morning",
        "You should've stayed at home",
        "Go home and be a family man!",
        "I salute my fallen enemy!",
    ];
    assert!(pool.contains(&b.text.text_at(0).as_str()));
}

#[test]
fn new_battle_generates_both_fleets() {
    let b = Battle::new(7);
    assert_eq!(b.state, Phase::PlayerAiming);
    assert_eq!(b.turn_event, TurnEvent::NoEvent);
    assert_eq!(b.time_state_entered, 7);
    assert!(!b.has_click);
    assert_eq!(b.last_hit, None);
    assert_eq!(b.text.len(), 0);
    for f in [&b.player_field, &b.unicorn_field] {
        let alive = f.alive_count();
        assert!(alive >= 5 && alive <= 17, "alive = {}", alive);
        for t in f.tiles.iter() {
            assert!(*t == TileState::Empty || *t == TileState::HasShip);
        }
    }
}
