//! The turn state machine: phases, timed transitions, shot resolution and the
//! events that feed the taunt queue. Time is injected: every per-tick entry
//! point takes the current clock reading in milliseconds.

use vstd::prelude::*;

use crate::board::{
    after_shot, count_ships, empty_board, lemma_count_ships_exists, playfield, untargeted, Coord,
    TileState,
};
use crate::game::MouseEvent;
use crate::placement::{distribute_ships, fleet_placements, place_all, Placement};
use crate::rng::random_below;
use crate::targeting::{hunt_target, select_target};
use crate::taunts::{
    feed_after_push, insult_after_being_hit, insult_after_hit, random_insult,
    spec_insult_after_being_hit, spec_insult_after_hit, spec_random_insult, TauntQueue,
    HIT_INSULT_COUNT, RANDOM_INSULT_COUNT,
};

verus! {

/// Milliseconds a resolving or terminal phase waits before it moves on.
pub const PHASE_DELAY_MS: u64 = 1000;

/// What happened in the phase that was resolved last, to be turned into a
/// taunt. The two ship-sunk variants are declared but nothing produces them
/// yet: reaching one would be a programming error, so every entry point rules
/// them out.
#[derive(Copy, Clone, PartialEq, Eq, Structural, Debug)]
pub enum TurnEvent {
    NoEvent,
    RandomTaunt,
    UniWasHit,
    PlayerWasHit,
    UniLostShip,
    PlayerLostShip,
}

/// One state of the turn state machine.
#[derive(Copy, Clone, PartialEq, Eq, Structural, Debug)]
pub enum Phase {
    PlayerAiming,
    PlayerShotResolving,
    OpponentAiming,
    OpponentShotResolving,
    OpponentDefeated,
    PlayerDefeated,
}

/// What one tick of the machine tells the host: keep going, or the game is
/// over and one side has lost.
#[derive(Copy, Clone, PartialEq, Eq, Structural, Debug)]
pub enum TickResult {
    Continue,
    GameOver { player_lost: bool },
}

/// The whole battle: both boards, the phase with the time it was entered,
/// the pending event, the taunt feed, and the pointer state.
pub struct Battle {
    pub turn_event: TurnEvent,
    pub time_state_entered: u64,
    pub state: Phase,
    pub text: TauntQueue,
    pub has_click: bool,
    pub cursor_x: u32,
    pub cursor_y: u32,
    pub player_field: playfield,
    pub unicorn_field: playfield,
    pub last_hit: Option<Coord>,
}

/// Whether a pixel position lies inside the opponent-board hit rectangle:
/// origin (420, 60), 320 by 320 pixels.
pub open spec fn in_hit_rect(x: u32, y: u32) -> bool {
    420 <= x < 740 && 60 <= y < 380
}

/// The linear board index of the cell under the cursor, at 32 pixels per cell.
pub open spec fn cursor_cell_index(b: Battle) -> int {
    ((b.cursor_y - 60) / 32) * 10 + (b.cursor_x - 420) / 32
}

impl Battle {
    /// The machine's invariant: both boards have their 100 cells, the taunt
    /// feed is within its bound, a pending click comes with a cursor inside
    /// the hit rectangle, the last hit is on the grid, no ship-sunk event is
    /// pending, and in every phase up to the opponent's aim the player still
    /// has a ship (the phases that shoot at the player's board rely on it).
    pub open spec fn wf(self) -> bool {
        &&& self.player_field.wf()
        &&& self.unicorn_field.wf()
        &&& self.text.wf()
        &&& (self.has_click ==> in_hit_rect(self.cursor_x, self.cursor_y))
        &&& (match self.last_hit {
            Some(h) => h.wf(),
            None => true,
        })
        &&& !(self.turn_event is UniLostShip)
        &&& !(self.turn_event is PlayerLostShip)
        &&& ((self.state is PlayerAiming || self.state is PlayerShotResolving
            || self.state is OpponentAiming) ==> count_ships(self.player_field@) >= 1)
    }
}

/// With a pending click the cursor sits inside the hit rectangle, so the cell
/// under it is on the grid.
pub proof fn lemma_cursor_cell_in_grid(b: Battle)
    requires
        b.wf(),
        b.has_click,
    ensures
        0 <= cursor_cell_index(b) < 100,
{
    assert((b.cursor_x - 420) / 32 < 10 && (b.cursor_y - 60) / 32 < 10) by (nonlinear_arith)
        requires
            420 <= b.cursor_x < 740,
            60 <= b.cursor_y < 380,
    ;
}

/// Whether one second has passed since the phase was entered.
pub open spec fn timer_expired(pre: Battle, now: u64) -> bool {
    now >= pre.time_state_entered + 1000
}

/// The tick result of a terminal phase: the end-of-game signal once one
/// second has passed, and nothing before.
pub open spec fn end_result(pre: Battle, now: u64, player_lost: bool) -> TickResult {
    if timer_expired(pre, now) {
        TickResult::GameOver { player_lost }
    } else {
        TickResult::Continue
    }
}

/// Whether `t` is a text of the pool that belongs to the event.
pub open spec fn in_pool(e: TurnEvent, t: Seq<char>) -> bool {
    match e {
        TurnEvent::RandomTaunt => exists|i: int| 0 <= i < 5 && t == spec_random_insult(i),
        TurnEvent::UniWasHit => exists|i: int| 0 <= i < 4 && t == spec_insult_after_being_hit(i),
        TurnEvent::PlayerWasHit => exists|i: int| 0 <= i < 4 && t == spec_insult_after_hit(i),
        _ => false,
    }
}

/// How the opponent's aiming phase may change the taunt feed: a pending event
/// pushes one text of its pool, no pending event leaves the feed alone.
pub open spec fn taunt_step_ok(pre: Battle, mid_text: Seq<Seq<char>>) -> bool {
    if pre.turn_event is NoEvent {
        mid_text == pre.text@
    } else {
        exists|t: Seq<char>|
            #![auto]
            in_pool(pre.turn_event, t) && mid_text == feed_after_push(pre.text@, t)
    }
}

/// How the opponent's shot at board cell `i` changes the battle: the cell was
/// untargeted and is now shot; when the hunt search around the last hit still
/// had a proposal, `i` is that proposal; a hit records the new hit address and
/// raises `PlayerWasHit`, a miss keeps the old hit address and raises
/// `RandomTaunt`.
pub open spec fn opponent_shot_ok(pre: Battle, post: Battle, i: int) -> bool {
    &&& 0 <= i < 100
    &&& untargeted(pre.player_field@[i])
    &&& (match pre.last_hit {
        Some(h) => (match hunt_target(pre.player_field@, h.col as int, h.row as int) {
            Some(t) => i == t.1 * 10 + t.0,
            None => true,
        }),
        None => true,
    })
    &&& post.player_field@ == pre.player_field@.update(i, after_shot(pre.player_field@[i]))
    &&& (if pre.player_field@[i] is HasShip {
        &&& (post.turn_event is PlayerWasHit)
        &&& (match post.last_hit {
            Some(h) => h.wf() && h.linear() == i,
            None => false,
        })
    } else {
        &&& (post.turn_event is RandomTaunt)
        &&& post.last_hit == pre.last_hit
    })
}

/// One tick while the player aims: without a pending click nothing happens;
/// with one, the cell under the cursor on the opponent's board is shot, a
/// fresh hit raises `UniWasHit`, and the machine moves to resolving.
pub open spec fn tick_player_aiming_rel(pre: Battle, post: Battle, r: TickResult, now: u64) -> bool {
    if !pre.has_click {
        post == pre && r is Continue
    } else {
        let i = cursor_cell_index(pre);
        &&& post.unicorn_field@ == pre.unicorn_field@.update(i, after_shot(pre.unicorn_field@[i]))
        &&& post.turn_event == (if pre.unicorn_field@[i] is HasShip {
            TurnEvent::UniWasHit
        } else {
            pre.turn_event
        })
        &&& (post.state is PlayerShotResolving)
        &&& post.time_state_entered == now
        &&& post.player_field == pre.player_field
        &&& post.text == pre.text
        &&& post.has_click == pre.has_click
        &&& post.cursor_x == pre.cursor_x
        &&& post.cursor_y == pre.cursor_y
        &&& post.last_hit == pre.last_hit
        &&& (r is Continue)
    }
}

/// One tick resolving the player's shot: an opponent board with no ship cell
/// left ends the game (defeat text, `OpponentDefeated`); otherwise the
/// opponent's turn begins, with a random taunt owed when no event is pending.
pub open spec fn tick_player_resolving_rel(
    pre: Battle,
    post: Battle,
    r: TickResult,
    now: u64,
) -> bool {
    &&& post.player_field == pre.player_field
    &&& post.unicorn_field == pre.unicorn_field
    &&& post.has_click == pre.has_click
    &&& post.cursor_x == pre.cursor_x
    &&& post.cursor_y == pre.cursor_y
    &&& post.last_hit == pre.last_hit
    &&& post.time_state_entered == now
    &&& (r is Continue)
    &&& (if count_ships(pre.unicorn_field@) == 0 {
        &&& (post.state is OpponentDefeated)
        &&& post.turn_event == pre.turn_event
        &&& post.text@ == feed_after_push(pre.text@, "You definitely cheated."@)
    } else {
        &&& (post.state is OpponentAiming)
        &&& post.turn_event == (if pre.turn_event is NoEvent {
            TurnEvent::RandomTaunt
        } else {
            pre.turn_event
        })
        &&& post.text == pre.text
    })
}

/// One tick of the opponent's aim: the pending event becomes a taunt, a
/// target is chosen and shot, and the projectile starts to travel.
pub open spec fn tick_opponent_aiming_rel(
    pre: Battle,
    post: Battle,
    r: TickResult,
    now: u64,
) -> bool {
    &&& (post.state is OpponentShotResolving)
    &&& post.time_state_entered == now
    &&& post.unicorn_field == pre.unicorn_field
    &&& post.has_click == pre.has_click
    &&& post.cursor_x == pre.cursor_x
    &&& post.cursor_y == pre.cursor_y
    &&& taunt_step_ok(pre, post.text@)
    &&& (exists|i: int| #[trigger] opponent_shot_ok(pre, post, i))
    &&& (r is Continue)
}

/// One tick while the opponent's projectile travels: nothing changes before
/// one second has passed; then a player board with no ship cell left ends the
/// game (defeat text, `PlayerDefeated`), otherwise the pending click is
/// cleared and the player aims again.
pub open spec fn tick_opponent_resolving_rel(
    pre: Battle,
    post: Battle,
    r: TickResult,
    now: u64,
) -> bool {
    if !timer_expired(pre, now) {
        post == pre && r is Continue
    } else {
        &&& post.player_field == pre.player_field
        &&& post.unicorn_field == pre.unicorn_field
        &&& post.cursor_x == pre.cursor_x
        &&& post.cursor_y == pre.cursor_y
        &&& post.last_hit == pre.last_hit
        &&& post.turn_event == pre.turn_event
        &&& post.time_state_entered == now
        &&& (r is Continue)
        &&& (if count_ships(pre.player_field@) == 0 {
            &&& (post.state is PlayerDefeated)
            &&& post.text@ == feed_after_push(pre.text@, "I broke all of your toys. You cryin' now?."@)
            &&& post.has_click == pre.has_click
        } else {
            &&& (post.state is PlayerAiming)
            &&& post.has_click == false
            &&& post.text == pre.text
        })
    }
}

/// What one tick does, by the phase the machine is in. The terminal phases
/// change nothing and emit the end-of-game signal once one second has passed.
pub open spec fn tick_rel(pre: Battle, post: Battle, r: TickResult, now: u64) -> bool {
    match pre.state {
        Phase::PlayerAiming => tick_player_aiming_rel(pre, post, r, now),
        Phase::PlayerShotResolving => tick_player_resolving_rel(pre, post, r, now),
        Phase::OpponentAiming => tick_opponent_aiming_rel(pre, post, r, now),
        Phase::OpponentShotResolving => tick_opponent_resolving_rel(pre, post, r, now),
        Phase::OpponentDefeated => post == pre && r == end_result(pre, now, false),
        Phase::PlayerDefeated => post == pre && r == end_result(pre, now, true),
    }
}

/// What a pointer event does: it is honoured only while the player aims and
/// only inside the hit rectangle; motion moves the cursor, a click moves the
/// cursor and sets the pending-click flag; anything else changes nothing.
pub open spec fn mouse_rel(pre: Battle, post: Battle, event: MouseEvent) -> bool {
    if !(pre.state is PlayerAiming) {
        post == pre
    } else {
        match event {
            MouseEvent::Motion { x, y } => if in_hit_rect(x, y) {
                post == (Battle { cursor_x: x, cursor_y: y, ..pre })
            } else {
                post == pre
            },
            MouseEvent::Click { x, y } => if in_hit_rect(x, y) {
                post == (Battle { cursor_x: x, cursor_y: y, has_click: true, ..pre })
            } else {
                post == pre
            },
        }
    }
}

impl Battle {
    /// A fresh battle at clock reading `now`: the player aims, no event and no
    /// click is pending, the feed is empty, and both boards carry a freshly
    /// generated fleet.
    pub fn new(now: u64) -> (b: Battle)
        ensures
            b.wf(),
            (b.state is PlayerAiming),
            (b.turn_event is NoEvent),
            b.time_state_entered == now,
            b.text@ == Seq::<Seq<char>>::empty(),
            b.has_click == false,
            b.cursor_x == 0 && b.cursor_y == 0,
            (b.last_hit is None),
            exists|ps: Seq<Placement>|
                #![auto]
                fleet_placements(ps) && b.player_field@ == place_all(empty_board(), ps),
            exists|ps: Seq<Placement>|
                #![auto]
                fleet_placements(ps) && b.unicorn_field@ == place_all(empty_board(), ps),
    {
        let mut player_field = playfield::new();
        let mut unicorn_field = playfield::new();
        distribute_ships(&mut player_field);
        distribute_ships(&mut unicorn_field);
        Battle {
            turn_event: TurnEvent::NoEvent,
            time_state_entered: now,
            state: Phase::PlayerAiming,
            text: TauntQueue::new(),
            has_click: false,
            cursor_x: 0,
            cursor_y: 0,
            player_field,
            unicorn_field,
            last_hit: None,
        }
    }

    /// The player's aiming phase: resolves a pending click against the
    /// opponent's board.
    fn player_turn(&mut self, now: u64) -> (r: TickResult)
        requires
            old(self).wf(),
            old(self).state is PlayerAiming,
        ensures
            final(self).wf(),
            tick_rel(*old(self), *final(self), r, now),
    {
        if self.has_click {
            proof {
                lemma_cursor_cell_in_grid(*self);
            }
            let col = ((self.cursor_x - 420) / 32) as usize;
            let row = ((self.cursor_y - 60) / 32) as usize;
            let c = Coord { col, row };
            let was = self.unicorn_field.tile_at(c);
            let _ = self.unicorn_field.mark_shot(c);
            if was == TileState::HasShip {
                self.turn_event = TurnEvent::UniWasHit;
            }
            self.state = Phase::PlayerShotResolving;
            self.time_state_entered = now;
        }
        TickResult::Continue
    }

    /// Resolves the player's shot: checks for the opponent's defeat, otherwise
    /// hands the turn to the opponent.
    fn waiting_for_player_projectile(&mut self, now: u64) -> (r: TickResult)
        requires
            old(self).wf(),
            old(self).state is PlayerShotResolving,
        ensures
            final(self).wf(),
            tick_rel(*old(self), *final(self), r, now),
    {
        if self.unicorn_field.alive_count() == 0 {
            self.state = Phase::OpponentDefeated;
            self.text.push("You definitely cheated.".to_owned());
        } else {
            self.state = Phase::OpponentAiming;
            if self.turn_event == TurnEvent::NoEvent {
                self.turn_event = TurnEvent::RandomTaunt;
            }
        }
        self.time_state_entered = now;
        TickResult::Continue
    }

    /// The opponent's aiming phase: turns the pending event into a taunt,
    /// selects a target on the player's board and shoots it.
    fn aiturn(&mut self, now: u64) -> (r: TickResult)
        requires
            old(self).wf(),
            old(self).state is OpponentAiming,
        ensures
            final(self).wf(),
            tick_rel(*old(self), *final(self), r, now),
    {
        match self.turn_event {
            TurnEvent::NoEvent => {},
            TurnEvent::RandomTaunt => {
                let i = random_below(RANDOM_INSULT_COUNT);
                let t = random_insult(i);
                let ghost tv = t@;
                self.text.push(t);
                self.turn_event = TurnEvent::NoEvent;
                proof {
                    assert(tv == spec_random_insult(i as int));
                    assert(in_pool(TurnEvent::RandomTaunt, tv));
                    assert(self.text@ == feed_after_push(old(self).text@, tv));
                }
            },
            TurnEvent::UniWasHit => {
                let i = random_below(HIT_INSULT_COUNT);
                let t = insult_after_being_hit(i);
                let ghost tv = t@;
                self.text.push(t);
                self.turn_event = TurnEvent::NoEvent;
                proof {
                    assert(tv == spec_insult_after_being_hit(i as int));
                    assert(in_pool(TurnEvent::UniWasHit, tv));
                    assert(self.text@ == feed_after_push(old(self).text@, tv));
                }
            },
            TurnEvent::PlayerWasHit => {
                let i = random_below(HIT_INSULT_COUNT);
                let t = insult_after_hit(i);
                let ghost tv = t@;
                self.text.push(t);
                self.turn_event = TurnEvent::NoEvent;
                proof {
                    assert(tv == spec_insult_after_hit(i as int));
                    assert(in_pool(TurnEvent::PlayerWasHit, tv));
                    assert(self.text@ == feed_after_push(old(self).text@, tv));
                }
            },
            // nothing produces the ship-sunk events yet; the invariant rules
            // them out, so these arms are unreachable
            TurnEvent::UniLostShip => {
                proof {
                    assert(false);
                }
            },
            TurnEvent::PlayerLostShip => {
                proof {
                    assert(false);
                }
            },
        }
        proof {
            assert(taunt_step_ok(*old(self), self.text@));
            lemma_count_ships_exists(self.player_field@);
            let j = choose|j: int|
                0 <= j < self.player_field@.len() && (#[trigger] self.player_field@[j]) is HasShip;
            assert(untargeted(self.player_field@[j]));
        }
        let target = select_target(&self.player_field, self.last_hit);
        let was = self.player_field.tile_at(target);
        let _ = self.player_field.mark_shot(target);
        if was == TileState::HasShip {
            self.last_hit = Some(target);
            self.turn_event = TurnEvent::PlayerWasHit;
        } else {
            self.turn_event = TurnEvent::RandomTaunt;
        }
        self.state = Phase::OpponentShotResolving;
        self.time_state_entered = now;
        proof {
            assert(opponent_shot_ok(*old(self), *self, target.linear()));
        }
        TickResult::Continue
    }

    /// Waits out the opponent's projectile, then checks for the player's
    /// defeat and otherwise starts the next round.
    fn waiting_for_ai_projectile(&mut self, now: u64) -> (r: TickResult)
        requires
            old(self).wf(),
            old(self).state is OpponentShotResolving,
        ensures
            final(self).wf(),
            tick_rel(*old(self), *final(self), r, now),
    {
        if now >= self.time_state_entered && now - self.time_state_entered >= PHASE_DELAY_MS {
            if self.player_field.alive_count() == 0 {
                self.state = Phase::PlayerDefeated;
                self.text.push("I broke all of your toys. You cryin' now?.".to_owned());
            } else {
                self.state = Phase::PlayerAiming;
                self.has_click = false;
            }
            self.time_state_entered = now;
        }
        TickResult::Continue
    }

    /// Advances the machine by one tick at clock reading `now` and reports
    /// whether the game goes on or is over.
    pub fn tick(&mut self, now: u64) -> (r: TickResult)
        requires
            old(self).wf(),
        ensures
            final(self).wf(),
            tick_rel(*old(self), *final(self), r, now),
    {
        let s = self.state;
        match s {
            Phase::PlayerAiming => self.player_turn(now),
            Phase::PlayerShotResolving => self.waiting_for_player_projectile(now),
            Phase::OpponentAiming => self.aiturn(now),
            Phase::OpponentShotResolving => self.waiting_for_ai_projectile(now),
            Phase::OpponentDefeated => {
                if now >= self.time_state_entered && now - self.time_state_entered
                    >= PHASE_DELAY_MS {
                    TickResult::GameOver { player_lost: false }
                } else {
                    TickResult::Continue
                }
            },
            Phase::PlayerDefeated => {
                if now >= self.time_state_entered && now - self.time_state_entered
                    >= PHASE_DELAY_MS {
                    TickResult::GameOver { player_lost: true }
                } else {
                    TickResult::Continue
                }
            },
        }
    }

    /// Feeds one pointer event into the machine.
    pub fn mouseevent(&mut self, event: MouseEvent)
        requires
            old(self).wf(),
        ensures
            final(self).wf(),
            mouse_rel(*old(self), *final(self), event),
    {
        if self.state == Phase::PlayerAiming {
            match event {
                MouseEvent::Motion { x, y } => {
                    if x >= 420 && x < 740 && y >= 60 && y < 380 {
                        self.cursor_x = x;
                        self.cursor_y = y;
                    }
                },
                MouseEvent::Click { x, y } => {
                    if x >= 420 && x < 740 && y >= 60 && y < 380 {
                        self.cursor_x = x;
                        self.cursor_y = y;
                        self.has_click = true;
                    }
                },
            }
        }
    }
}

/// While the opponent's projectile travels, a tick before one second has
/// passed changes nothing at all, however often it is repeated; the first
/// tick at or after the one-second mark leaves the phase, and it resets the
/// phase timer to `now`, so the transition happens exactly once.
pub proof fn lemma_projectile_wait(pre: Battle, post: Battle, r: TickResult, now: u64)
    requires
        tick_rel(pre, post, r, now),
        pre.state is OpponentShotResolving,
    ensures
        now < pre.time_state_entered + 1000 ==> post == pre && r is Continue,
        now >= pre.time_state_entered + 1000 ==> (post.state is PlayerAiming
            || post.state is PlayerDefeated) && post.time_state_entered == now,
{
}

/// Resolving the player's shot reaches OpponentDefeated exactly when no
/// opponent ship cell is left alive.
pub proof fn lemma_defeat_exactly_when_cleared(pre: Battle, post: Battle, r: TickResult, now: u64)
    requires
        tick_rel(pre, post, r, now),
        pre.state is PlayerShotResolving,
    ensures
        (post.state is OpponentDefeated) <==> count_ships(pre.unicorn_field@) == 0,
{
}

/// A click that lands on an undiscovered opponent ship cell lowers the
/// opponent's alive count by exactly one; a click on any other cell — empty
/// or already shot — leaves the alive count unchanged.
pub proof fn lemma_player_shot_alive_count(pre: Battle, post: Battle, r: TickResult, now: u64)
    requires
        tick_rel(pre, post, r, now),
        pre.wf(),
        pre.state is PlayerAiming,
        pre.has_click,
    ensures
        pre.unicorn_field@[cursor_cell_index(pre)] is HasShip ==> count_ships(post.unicorn_field@)
            == count_ships(pre.unicorn_field@) - 1,
        !(pre.unicorn_field@[cursor_cell_index(pre)] is HasShip) ==> count_ships(
            post.unicorn_field@,
        ) == count_ships(pre.unicorn_field@),
{
    lemma_cursor_cell_in_grid(pre);
    crate::board::lemma_alive_count_after_shot(pre.unicorn_field@, cursor_cell_index(pre));
}

/// A tick changes a board cell only by shooting it: every cell either keeps
/// its state or moves to `after_shot` of it. In particular a cell becomes
/// `ShotAndHit` only from `HasShip` and `ShotAt` only from `Empty`, and once
/// a cell has been shot its displayed state never changes again.
pub proof fn lemma_shot_cells_never_revert(
    pre: Battle,
    post: Battle,
    r: TickResult,
    now: u64,
    j: int,
)
    requires
        tick_rel(pre, post, r, now),
        pre.wf(),
        0 <= j < 100,
    ensures
        post.player_field@[j] == pre.player_field@[j] || post.player_field@[j] == after_shot(
            pre.player_field@[j],
        ),
        post.unicorn_field@[j] == pre.unicorn_field@[j] || post.unicorn_field@[j] == after_shot(
            pre.unicorn_field@[j],
        ),
        !untargeted(pre.player_field@[j]) ==> post.player_field@[j] == pre.player_field@[j],
        !untargeted(pre.unicorn_field@[j]) ==> post.unicorn_field@[j] == pre.unicorn_field@[j],
{
    match pre.state {
        Phase::PlayerAiming => {
            if pre.has_click {
                lemma_cursor_cell_in_grid(pre);
            }
        },
        Phase::OpponentAiming => {
            let i = choose|i: int| #[trigger] opponent_shot_ok(pre, post, i);
            assert(opponent_shot_ok(pre, post, i));
            if !untargeted(pre.player_field@[j]) {
                assert(j != i);
                assert(post.player_field@[j] == pre.player_field@[j]);
            }
        },
        _ => {},
    }
}

/// The last-hit address is never cleared: once set, it is only ever replaced
/// by the address of a newer hit.
pub proof fn lemma_last_hit_never_cleared(pre: Battle, post: Battle, r: TickResult, now: u64)
    requires
        tick_rel(pre, post, r, now),
    ensures
        (pre.last_hit is Some) ==> (post.last_hit is Some),
{
    if pre.state is OpponentAiming {
        let i = choose|i: int| #[trigger] opponent_shot_ok(pre, post, i);
        assert(opponent_shot_ok(pre, post, i));
    }
}

} // verus!
