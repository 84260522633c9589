//! The outer game wrapper: the scene the session is in, and the entry points
//! the host loop calls once per frame.

use vstd::prelude::*;

use crate::battle::{mouse_rel, tick_rel, Battle, TickResult};
use crate::board::empty_board;
use crate::placement::{fleet_placements, place_all, Placement};

verus! {

/// The scene the session is in. A battle carries the whole turn state
/// machine; the outtro records which side lost.
#[allow(non_snake_case)]
pub enum GameState {
    Intro,
    Tile,
    Battle(Battle),
    Outtro { playerLost: bool },
}

/// A pointer event in screen pixel coordinates.
#[derive(Copy, Clone, PartialEq, Eq, Structural, Debug)]
pub enum MouseEvent {
    Motion { x: u32, y: u32 },
    Click { x: u32, y: u32 },
}

impl GameState {
    /// A battle scene carries a well-formed battle.
    pub open spec fn wf(self) -> bool {
        match self {
            GameState::Battle(b) => b.wf(),
            _ => true,
        }
    }
}

/// The game: its current scene.
pub struct Game {
    pub g: GameState,
}

impl Game {
    /// The scene is well formed.
    pub open spec fn wf(self) -> bool {
        self.g.wf()
    }

    /// A fresh game at clock reading `now`: a battle in the player's aiming
    /// phase, with freshly generated fleets on both boards.
    pub fn new(now: u64) -> (g: Game)
        ensures
            g.wf(),
            (g.g matches GameState::Battle(b) && b.state is PlayerAiming
                && b.turn_event is NoEvent && b.time_state_entered == now
                && !b.has_click && b.last_hit is None && b.text@ == Seq::<Seq<char>>::empty()
                && (exists|ps: Seq<Placement>|
                #![auto]
                fleet_placements(ps) && b.player_field@ == place_all(empty_board(), ps)) && (
            exists|ps: Seq<Placement>|
                #![auto]
                fleet_placements(ps) && b.unicorn_field@ == place_all(empty_board(), ps))),
    {
        Game { g: GameState::Battle(Battle::new(now)) }
    }

    /// Advances the game by one tick at clock reading `now`: a battle ticks
    /// its turn state machine and, when the machine reports the end of the
    /// game, the scene becomes the outtro for the losing side; every other
    /// scene is left as it is.
    pub fn tick(&mut self, now: u64)
        requires
            old(self).wf(),
        ensures
            final(self).wf(),
            (match old(self).g {
                GameState::Battle(b) => exists|b2: Battle, r: TickResult|
                    #![auto]
                    tick_rel(b, b2, r, now) && b2.wf() && final(self).g == (match r {
                        TickResult::GameOver { player_lost } => GameState::Outtro {
                            playerLost: player_lost,
                        },
                        TickResult::Continue => GameState::Battle(b2),
                    }),
                _ => final(self).g == old(self).g,
            }),
    {
        let r = match &mut self.g {
            GameState::Battle(b) => b.tick(now),
            _ => TickResult::Continue,
        };
        match r {
            TickResult::GameOver { player_lost } => {
                self.g = GameState::Outtro { playerLost: player_lost };
            },
            TickResult::Continue => {},
        }
    }

    /// Feeds one pointer event into the game. A battle hands it to the turn
    /// state machine, the outtro ignores it; the intro and tile scenes do not
    /// handle pointer events yet, so they are ruled out.
    pub fn mouseeveent(&mut self, event: MouseEvent)
        requires
            old(self).wf(),
            !(old(self).g is Intro),
            !(old(self).g is Tile),
        ensures
            final(self).wf(),
            (match old(self).g {
                GameState::Battle(b) => (final(self).g matches GameState::Battle(b2)
                    && mouse_rel(b, b2, event)),
                _ => final(self).g == old(self).g,
            }),
    {
        match &mut self.g {
            GameState::Battle(b) => b.mouseevent(event),
            _ => {},
        }
    }
}

} // verus!
