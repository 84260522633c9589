use bnu::battle::{Battle, Phase, TurnEvent};
use bnu::board::{playfield, TileState};
use bnu::game::{Game, GameState, MouseEvent};
use bnu::taunts::TauntQueue;

#[test]
fn new_game_starts_a_battle() {
    let g = Game::new(0);
    match &g.g {
        GameState::Battle(b) => {
            assert_eq!(b.state, Phase::PlayerAiming);
            assert!(!b.has_click);
        }
        _ => panic!("a new game must start in a battle"),
    }
}

#[test]
fn game_forwards_pointer_events_to_the_battle() {
    let mut g = Game::new(0);
    g.mouseeveent(MouseEvent::Motion { x: 430, y: 70 });
    match &g.g {
        GameState::Battle(b) => {
            assert_eq!((b.cursor_x, b.cursor_y), (430, 70));
            assert!(!b.has_click);
        }
        _ => panic!("the scene must still be the battle"),
    }
    g.mouseeveent(MouseEvent::Click { x: 450, y: 90 });
    match &g.g {
        GameState::Battle(b) => {
            assert_eq!((b.cursor_x, b.cursor_y), (450, 90));
            assert!(b.has_click);
        }
        _ => panic!("the scene must still be the battle"),
    }
}

#[test]
fn lost_battle_becomes_the_outtro() {
    // one player ship cell left and everything else already shot: the
    // opponent's next shot must take it
    let mut tiles = vec![TileState::ShotAt; 100];
    tiles[60] = TileState::HasShip;
    let b = Battle {
        turn_event: TurnEvent::NoEvent,
        time_state_entered: 0,
        state: Phase::OpponentAiming,
        text: TauntQueue::new(),
        has_click: false,
        cursor_x: 0,
        cursor_y: 0,
        player_field: playfield { tiles },
        unicorn_field: playfield { tiles: vec![TileState::HasShip; 100] },
        last_hit: None,
    };
    let mut g = Game { g: GameState::Battle(b) };
    g.tick(0); // the shot lands on the last ship
    g.tick(1000); // the projectile arrives: the player is defeated
    g.tick(1500); // not yet: the outtro comes one second after defeat
    assert!(matches!(g.g, GameState::Battle(_)));
    g.tick(2000);
    match &g.g {
        GameState::Outtro { playerLost } => assert!(*playerLost),
        _ => panic!("the game must have reached the outtro"),
    }
    // further ticks leave the outtro alone
    g.tick(9999);
    assert!(matches!(g.g, GameState::Outtro { .. }));
}

#[test]
fn idle_scenes_tick_in_place() {
    let mut g = Game { g: GameState::Intro };
    g.tick(5);
    assert!(matches!(g.g, GameState::Intro));
    let mut g = Game { g: GameState::Tile };
    g.tick(5);
    assert!(matches!(g.g, GameState::Tile));
}

#[test]
fn outtro_ignores_pointer_events() {
    let mut g = Game { g: GameState::Outtro { playerLost: false } };
    g.mouseeveent(MouseEvent::Click { x: 500, y: 100 });
    g.tick(42);
    match &g.g {
        GameState::Outtro { playerLost } => assert!(!*playerLost),
        _ => panic!("the outtro must persist"),
    }
}
