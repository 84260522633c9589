//! The opponent's targeting strategy: a hunt search around the last confirmed
//! hit, and a cheat-or-random fallback when there is nothing to hunt.

use vstd::prelude::*;

use crate::board::{playfield, untargeted, Coord, TileState};
use crate::rng::{random_below, random_coin};

verus! {

/// Whether (`c`, `r`) lies on the grid.
pub open spec fn in_grid(c: int, r: int) -> bool {
    0 <= c < 10 && 0 <= r < 10
}

/// The cell the hunt search proposes around a hit at (`hc`, `hr`): the three
/// cells of the hit's row at columns `hc-1 ..= hc+1` are scanned in increasing
/// column order, then the three cells of the hit's column at rows
/// `hr-1 ..= hr+1` in increasing row order; cells off the grid are skipped,
/// and the first cell not yet targeted wins. `None` when both scans are
/// exhausted.
pub open spec fn hunt_target(s: Seq<TileState>, hc: int, hr: int) -> Option<(int, int)> {
    if in_grid(hc - 1, hr) && untargeted(s[hr * 10 + hc - 1]) {
        Some((hc - 1, hr))
    } else if in_grid(hc, hr) && untargeted(s[hr * 10 + hc]) {
        Some((hc, hr))
    } else if in_grid(hc + 1, hr) && untargeted(s[hr * 10 + hc + 1]) {
        Some((hc + 1, hr))
    } else if in_grid(hc, hr - 1) && untargeted(s[(hr - 1) * 10 + hc]) {
        Some((hc, hr - 1))
    } else if in_grid(hc, hr) && untargeted(s[hr * 10 + hc]) {
        Some((hc, hr))
    } else if in_grid(hc, hr + 1) && untargeted(s[(hr + 1) * 10 + hc]) {
        Some((hc, hr + 1))
    } else {
        None
    }
}

/// On a board whose only targeted cell can be the hit itself — say a hit at
/// (5,5) on an otherwise all-empty board — the hunt search proposes (4,5),
/// an immediate orthogonal neighbour of the hit, and in particular one of
/// (4,5), (6,5), (5,4), (5,6): it never falls back to the random selection.
pub proof fn lemma_hunt_after_single_hit(s: Seq<TileState>)
    requires
        s.len() == 100,
        forall|i: int| 0 <= i < 100 && i != 55 ==> untargeted(#[trigger] s[i]),
    ensures
        hunt_target(s, 5, 5) == Some((4int, 5int)),
        (hunt_target(s, 5, 5) is Some),
        hunt_target(s, 5, 5) == Some((4int, 5int)) || hunt_target(s, 5, 5) == Some((6int, 5int))
            || hunt_target(s, 5, 5) == Some((5int, 4int)) || hunt_target(s, 5, 5) == Some(
            (5int, 6int),
        ),
{
    assert(untargeted(s[54]));
}

impl playfield {
    /// Whether the cell has not been shot at yet.
    pub fn can_shoot_at(&self, c: Coord) -> (r: bool)
        requires
            self.wf(),
            c.wf(),
        ensures
            r == untargeted(self@[c.linear()]),
    {
        let t = self.tile_at(c);
        t != TileState::ShotAndHit && t != TileState::ShotAt
    }

    /// Whether the cell holds an undiscovered ship.
    pub fn has_ship(&self, c: Coord) -> (r: bool)
        requires
            self.wf(),
            c.wf(),
        ensures
            r == (self@[c.linear()] is HasShip),
    {
        self.tile_at(c) == TileState::HasShip
    }
}

/// The hunt search: scans the row and then the column around the last hit and
/// returns the first cell not yet targeted, or `None` when all six candidates
/// are spent.
pub fn select_shooting_pos(field: &playfield, hit: Coord) -> (r: Option<Coord>)
    requires
        field.wf(),
        hit.wf(),
    ensures
        match r {
            Some(c) => c.wf() && hunt_target(field@, hit.col as int, hit.row as int) == Some(
                (c.col as int, c.row as int),
            ),
            None => hunt_target(field@, hit.col as int, hit.row as int) is None,
        },
{
    if hit.col >= 1 {
        let c = Coord { col: hit.col - 1, row: hit.row };
        if field.can_shoot_at(c) {
            return Some(c);
        }
    }
    let center = Coord { col: hit.col, row: hit.row };
    if field.can_shoot_at(center) {
        return Some(center);
    }
    if hit.col + 1 < 10 {
        let c = Coord { col: hit.col + 1, row: hit.row };
        if field.can_shoot_at(c) {
            return Some(c);
        }
    }
    if hit.row >= 1 {
        let c = Coord { col: hit.col, row: hit.row - 1 };
        if field.can_shoot_at(c) {
            return Some(c);
        }
    }
    if hit.row + 1 < 10 {
        let c = Coord { col: hit.col, row: hit.row + 1 };
        if field.can_shoot_at(c) {
            return Some(c);
        }
    }
    None
}

/// Returns the first untargeted cell of the board, in row-major order.
/// At least one cell must still be untargeted.
fn first_untargeted(field: &playfield) -> (r: usize)
    requires
        field.wf(),
        exists|i: int| 0 <= i < 100 && untargeted(field@[i]),
    ensures
        r < 100,
        untargeted(field@[r as int]),
{
    let mut i: usize = 0;
    while i < 100
        invariant
            field.wf(),
            i <= 100,
            exists|j: int| 0 <= j < 100 && untargeted(field@[j]),
            forall|j: int| 0 <= j < i ==> !untargeted(#[trigger] field@[j]),
        decreases 100 - i,
    {
        let c = Coord::from_index(i);
        if field.can_shoot_at(c) {
            return i;
        }
        i = i + 1;
    }
    proof {
        assert(false);
    }
    0
}

/// Picks a random untargeted cell: with a 50% chance the opponent is allowed
/// to cheat and takes the first cell that still holds a ship, in row-major
/// order; otherwise random cells are resampled until an untargeted one comes
/// up, with a bounded number of retries; after the bound the first untargeted
/// cell is taken. At least one cell must still be untargeted.
pub fn select_random_shooting_pos(field: &playfield) -> (r: usize)
    requires
        field.wf(),
        exists|i: int| 0 <= i < 100 && untargeted(field@[i]),
    ensures
        r < 100,
        untargeted(field@[r as int]),
{
    let let_it_cheat = random_coin();
    if let_it_cheat {
        let mut i: usize = 0;
        while i < 100
            invariant
                field.wf(),
                i <= 100,
            decreases 100 - i,
        {
            if field.has_ship(Coord::from_index(i)) {
                return i;
            }
            i = i + 1;
        }
    }
    let mut tries: usize = 0;
    while tries < 10000
        invariant
            field.wf(),
        decreases 10000 - tries,
    {
        let i = random_below(100);
        let c = Coord::from_index(i);
        if field.can_shoot_at(c) {
            return i;
        }
        tries = tries + 1;
    }
    first_untargeted(field)
}

/// Chooses the opponent's next shot. A hit to hunt from takes priority: when
/// the hunt search around it still finds an untargeted cell, that cell is the
/// shot. Otherwise — no hit yet, or the hunt exhausted — a cheat-or-random
/// untargeted cell is chosen. The shot always lands on an untargeted cell, so
/// at least one cell must still be untargeted.
pub fn select_target(field: &playfield, last_hit: Option<Coord>) -> (c: Coord)
    requires
        field.wf(),
        exists|i: int| 0 <= i < 100 && untargeted(field@[i]),
        match last_hit {
            Some(h) => h.wf(),
            None => true,
        },
    ensures
        c.wf(),
        untargeted(field@[c.linear()]),
        match last_hit {
            Some(h) => (match hunt_target(field@, h.col as int, h.row as int) {
                Some(t) => t == (c.col as int, c.row as int),
                None => true,
            }),
            None => true,
        },
{
    match last_hit {
        Some(h) => {
            match select_shooting_pos(field, h) {
                Some(c) => c,
                None => Coord::from_index(select_random_shooting_pos(field)),
            }
        },
        None => Coord::from_index(select_random_shooting_pos(field)),
    }
}

} // verus!
