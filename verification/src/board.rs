//! The board model: a 10x10 grid of tile states, coordinates, and shooting.

use vstd::prelude::*;

verus! {

/// The state of one cell of a board.
#[derive(Copy, Clone, PartialEq, Eq, Structural, Debug)]
pub enum TileState {
    /// Never targeted, no ship.
    Empty,
    /// Targeted and missed.
    ShotAt,
    /// Targeted and hit: a ship was here.
    ShotAndHit,
    /// An undiscovered ship cell.
    HasShip,
}

/// A grid coordinate: `col` counts from the left, `row` from the top,
/// both within `0..10` on a well-formed value.
#[derive(Copy, Clone, PartialEq, Eq, Structural, Debug)]
pub struct Coord {
    pub col: usize,
    pub row: usize,
}

impl Coord {
    /// Both components lie on the grid.
    pub open spec fn wf(self) -> bool {
        self.col < 10 && self.row < 10
    }

    /// The linear index of this coordinate, row-major.
    pub open spec fn linear(self) -> int {
        self.row * 10 + self.col
    }

    /// Converts the coordinate to its row-major linear index.
    pub fn to_index(self) -> (i: usize)
        requires
            self.wf(),
        ensures
            i == self.linear(),
            i < 100,
    {
        self.row * 10 + self.col
    }

    /// Converts a row-major linear index back to a coordinate.
    pub fn from_index(i: usize) -> (c: Coord)
        requires
            i < 100,
        ensures
            c.wf(),
            c.linear() == i,
    {
        Coord { col: i % 10, row: i / 10 }
    }
}

/// One side's board: 100 tile states in row-major order.
#[allow(non_camel_case_types)]
pub struct playfield {
    pub tiles: Vec<TileState>,
}

impl View for playfield {
    type V = Seq<TileState>;

    open spec fn view(&self) -> Seq<TileState> {
        self.tiles@
    }
}

/// The state a cell moves to when it is targeted: an empty cell becomes a
/// miss, a ship cell becomes a hit, an already-shot cell keeps its state.
pub open spec fn after_shot(t: TileState) -> TileState {
    match t {
        TileState::Empty => TileState::ShotAt,
        TileState::HasShip => TileState::ShotAndHit,
        TileState::ShotAt => TileState::ShotAt,
        TileState::ShotAndHit => TileState::ShotAndHit,
    }
}

/// A cell that has not been targeted yet.
pub open spec fn untargeted(t: TileState) -> bool {
    t is Empty || t is HasShip
}

/// How many cells of `s` still hold an undiscovered ship.
pub open spec fn count_ships(s: Seq<TileState>) -> nat
    decreases s.len(),
{
    if s.len() == 0 {
        0
    } else {
        (if s[0] is HasShip { 1nat } else { 0nat }) + count_ships(s.skip(1))
    }
}

/// The view of a board on which nothing has happened yet.
pub open spec fn empty_board() -> Seq<TileState> {
    Seq::new(100, |i: int| TileState::Empty)
}

impl playfield {
    /// A board is well formed when it has exactly one tile per grid cell.
    pub open spec fn wf(self) -> bool {
        self@.len() == 100
    }

    /// A fresh board with every cell empty.
    pub fn new() -> (f: playfield)
        ensures
            f.wf(),
            f@ == empty_board(),
            forall|i: int| 0 <= i < 100 ==> f@[i] is Empty,
    {
        let mut tiles: Vec<TileState> = Vec::new();
        let mut i: usize = 0;
        while i < 100
            invariant
                i <= 100,
                tiles@.len() == i,
                forall|j: int| 0 <= j < i ==> tiles@[j] is Empty,
            decreases 100 - i,
        {
            tiles.push(TileState::Empty);
            i = i + 1;
        }
        proof {
            assert(tiles@ =~= empty_board());
        }
        playfield { tiles }
    }

    /// Reads the state of one cell.
    pub fn tile_at(&self, c: Coord) -> (t: TileState)
        requires
            self.wf(),
            c.wf(),
        ensures
            t == self@[c.linear()],
    {
        self.tiles[c.to_index()]
    }

    /// Targets one cell: an empty cell becomes a miss, a ship cell becomes a
    /// hit, and a cell that was already shot is left as it is. Returns the
    /// state the cell holds after the shot.
    pub fn mark_shot(&mut self, c: Coord) -> (t: TileState)
        requires
            old(self).wf(),
            c.wf(),
        ensures
            final(self).wf(),
            final(self)@ == old(self)@.update(c.linear(), after_shot(old(self)@[c.linear()])),
            t == after_shot(old(self)@[c.linear()]),
    {
        let i = c.to_index();
        let next = match self.tiles[i] {
            TileState::Empty => TileState::ShotAt,
            TileState::ShotAt => TileState::ShotAt,
            TileState::ShotAndHit => TileState::ShotAndHit,
            TileState::HasShip => TileState::ShotAndHit,
        };
        self.tiles[i] = next;
        next
    }

    /// Counts the cells that still hold an undiscovered ship.
    pub fn alive_count(&self) -> (n: usize)
        requires
            self.wf(),
        ensures
            n == count_ships(self@),
    {
        let mut n: usize = 0;
        let mut i: usize = 0;
        while i < 100
            invariant
                self.wf(),
                i <= 100,
                n <= i,
                n == count_ships(self@.take(i as int)),
            decreases 100 - i,
        {
            proof {
                lemma_count_ships_take_step(self@, i as int);
            }
            if self.tiles[i] == TileState::HasShip {
                n = n + 1;
            }
            i = i + 1;
        }
        proof {
            assert(self@.take(100) =~= self@);
        }
        n
    }
}

/// Extending a prefix by one cell extends its ship count by that cell.
proof fn lemma_count_ships_take_step(s: Seq<TileState>, i: int)
    requires
        0 <= i < s.len(),
    ensures
        count_ships(s.take(i + 1)) == count_ships(s.take(i)) + (if s[i] is HasShip {
            1nat
        } else {
            0nat
        }),
    decreases i,
{
    if i == 0 {
        assert(s.take(1).skip(1) =~= s.take(0));
    } else {
        let t = s.skip(1);
        assert(s.take(i + 1).skip(1) =~= t.take(i));
        assert(s.take(i).skip(1) =~= t.take(i - 1));
        assert(s.take(i + 1)[0] == s[0]);
        assert(s.take(i)[0] == s[0]);
        lemma_count_ships_take_step(t, i - 1);
    }
}

/// Replacing the cell at `i` by `v` changes the ship count exactly by the
/// difference the two values make at that cell.
pub proof fn lemma_count_ships_update(s: Seq<TileState>, i: int, v: TileState)
    requires
        0 <= i < s.len(),
    ensures
        count_ships(s.update(i, v)) + (if s[i] is HasShip { 1int } else { 0int }) == count_ships(s)
            + (if v is HasShip { 1int } else { 0int }),
    decreases i,
{
    if i == 0 {
        assert(s.update(0, v).skip(1) =~= s.skip(1));
        assert(s.update(0, v)[0] == v);
    } else {
        assert(s.update(i, v)[0] == s[0]);
        assert(s.update(i, v).skip(1) =~= s.skip(1).update(i - 1, v));
        lemma_count_ships_update(s.skip(1), i - 1, v);
    }
}

/// A board with an undiscovered ship cell has a positive alive count.
pub proof fn lemma_count_ships_positive(s: Seq<TileState>, i: int)
    requires
        0 <= i < s.len(),
        s[i] is HasShip,
    ensures
        count_ships(s) >= 1,
    decreases i,
{
    if i > 0 {
        lemma_count_ships_positive(s.skip(1), i - 1);
    }
}

/// A board with a positive alive count still holds an undiscovered ship cell.
pub proof fn lemma_count_ships_exists(s: Seq<TileState>)
    requires
        count_ships(s) >= 1,
    ensures
        exists|i: int| 0 <= i < s.len() && (#[trigger] s[i]) is HasShip,
    decreases s.len(),
{
    if s.len() > 0 {
        if s[0] is HasShip {
            assert(s[0] is HasShip);
        } else {
            lemma_count_ships_exists(s.skip(1));
            let j = choose|j: int| 0 <= j < s.skip(1).len() && (#[trigger] s.skip(1)[j]) is HasShip;
            assert(s[j + 1] is HasShip);
        }
    }
}

/// Shooting is idempotent: targeting the same cell a second time leaves the
/// board exactly as the first shot left it, and returns the same state.
pub proof fn lemma_mark_shot_idempotent(s: Seq<TileState>, i: int)
    requires
        0 <= i < s.len(),
    ensures
        after_shot(after_shot(s[i])) == after_shot(s[i]),
        s.update(i, after_shot(s[i])).update(
            i,
            after_shot(s.update(i, after_shot(s[i]))[i]),
        ) == s.update(i, after_shot(s[i])),
{
    let s1 = s.update(i, after_shot(s[i]));
    assert(s1[i] == after_shot(s[i]));
    assert(s1.update(i, after_shot(s1[i])) =~= s1);
}

/// Shooting a cell that holds an undiscovered ship lowers the alive count by
/// exactly one; shooting any other cell leaves the alive count unchanged.
pub proof fn lemma_alive_count_after_shot(s: Seq<TileState>, i: int)
    requires
        0 <= i < s.len(),
    ensures
        s[i] is HasShip ==> count_ships(s.update(i, after_shot(s[i]))) == count_ships(s) - 1,
        !(s[i] is HasShip) ==> count_ships(s.update(i, after_shot(s[i]))) == count_ships(s),
{
    lemma_count_ships_update(s, i, after_shot(s[i]));
}

} // verus!
