//! The ship placement generator: marks five randomly placed ship runs of
//! lengths 2, 3, 3, 4 and 5 on a board. Runs may overlap one another: the
//! generator does not check for overlap, by design.

use vstd::prelude::*;

use crate::board::{count_ships, playfield, TileState};
use crate::rng::{random_below, random_coin};

verus! {

/// One ship run: its origin cell, its direction and its length.
pub ghost struct Placement {
    pub col: int,
    pub row: int,
    pub horiz: bool,
    pub len: int,
}

/// The linear index of the `k`-th cell of the run: horizontal runs step
/// through columns of one row, vertical runs through rows of one column.
pub open spec fn run_cell(p: Placement, k: int) -> int {
    if p.horiz {
        p.row * 10 + p.col + k
    } else {
        (p.row + k) * 10 + p.col
    }
}

/// The run starts on the grid and lies inside it along its one axis.
pub open spec fn placement_wf(p: Placement) -> bool {
    &&& 0 <= p.col < 10
    &&& 0 <= p.row < 10
    &&& 1 <= p.len <= 10
    &&& (if p.horiz {
        p.col + p.len <= 10
    } else {
        p.row + p.len <= 10
    })
}

/// The board after the cells `k..p.len` of the run have been marked as ships.
pub open spec fn mark_run(s: Seq<TileState>, p: Placement, k: int) -> Seq<TileState>
    decreases p.len - k,
{
    if k >= p.len {
        s
    } else {
        mark_run(s.update(run_cell(p, k), TileState::HasShip), p, k + 1)
    }
}

/// The board after a whole sequence of runs has been marked, in order.
pub open spec fn place_all(s: Seq<TileState>, ps: Seq<Placement>) -> Seq<TileState>
    decreases ps.len(),
{
    if ps.len() == 0 {
        s
    } else {
        mark_run(place_all(s, ps.drop_last()), ps.last(), 0)
    }
}

/// The lengths of the five ships, in placement order.
pub open spec fn ship_sizes() -> Seq<int> {
    seq![2, 3, 3, 4, 5]
}

/// Five well-formed runs whose lengths are the five ship sizes.
pub open spec fn fleet_placements(ps: Seq<Placement>) -> bool {
    &&& ps.len() == 5
    &&& forall|k: int| 0 <= k < 5 ==> placement_wf(#[trigger] ps[k]) && ps[k].len == ship_sizes()[k]
}

/// Every cell of a well-formed run lies on the grid, and the run is
/// contiguous along exactly one axis: a horizontal run keeps its row and
/// walks `len` adjacent columns from its origin, a vertical run keeps its
/// column and walks `len` adjacent rows.
pub proof fn lemma_run_cell_in_grid(p: Placement, k: int)
    requires
        placement_wf(p),
        0 <= k < p.len,
    ensures
        0 <= run_cell(p, k) < 100,
        p.horiz ==> run_cell(p, k) / 10 == p.row && run_cell(p, k) % 10 == p.col + k,
        !p.horiz ==> run_cell(p, k) / 10 == p.row + k && run_cell(p, k) % 10 == p.col,
{
    if p.horiz {
        assert(run_cell(p, k) == p.row * 10 + (p.col + k));
        assert(0 <= p.col + k < 10);
        assert((p.row * 10 + (p.col + k)) / 10 == p.row && (p.row * 10 + (p.col + k)) % 10 == p.col
            + k) by (nonlinear_arith)
            requires
                0 <= p.row < 10,
                0 <= p.col + k < 10,
        ;
    } else {
        assert(run_cell(p, k) == (p.row + k) * 10 + p.col);
        assert(0 <= p.row + k < 10);
        assert(((p.row + k) * 10 + p.col) / 10 == p.row + k && ((p.row + k) * 10 + p.col) % 10
            == p.col) by (nonlinear_arith)
            requires
                0 <= p.row + k < 10,
                0 <= p.col < 10,
        ;
    }
}

/// Two distinct positions of one run land on two distinct cells.
proof fn lemma_run_cells_distinct(p: Placement, k: int, m: int)
    requires
        placement_wf(p),
        0 <= k < p.len,
        0 <= m < p.len,
        k != m,
    ensures
        run_cell(p, k) != run_cell(p, m),
{
    lemma_run_cell_in_grid(p, k);
    lemma_run_cell_in_grid(p, m);
}

/// Marking a run turns exactly its cells into ship cells: every cell of the
/// run holds a ship afterwards, and every other cell keeps its old state.
pub proof fn lemma_mark_run_effect(s: Seq<TileState>, p: Placement, k: int)
    requires
        s.len() == 100,
        placement_wf(p),
        0 <= k <= p.len,
    ensures
        mark_run(s, p, k).len() == 100,
        forall|m: int| k <= m < p.len ==> #[trigger] mark_run(s, p, k)[run_cell(p, m)] is HasShip,
        forall|j: int|
            0 <= j < 100 && !(exists|m: int| k <= m < p.len && run_cell(p, m) == j) ==> mark_run(
                s,
                p,
                k,
            )[j] == s[j],
    decreases p.len - k,
{
    if k < p.len {
        lemma_run_cell_in_grid(p, k);
        let s1 = s.update(run_cell(p, k), TileState::HasShip);
        lemma_mark_run_effect(s1, p, k + 1);
        assert(mark_run(s, p, k) == mark_run(s1, p, k + 1));
        assert(!(exists|m2: int| k + 1 <= m2 < p.len && run_cell(p, m2) == run_cell(p, k))) by {
            assert forall|m2: int| k + 1 <= m2 < p.len implies run_cell(p, m2) != run_cell(
                p,
                k,
            ) by {
                lemma_run_cells_distinct(p, k, m2);
            }
        }
        assert(mark_run(s1, p, k + 1)[run_cell(p, k)] == s1[run_cell(p, k)]);
        assert forall|m: int| k <= m < p.len implies #[trigger] mark_run(s, p, k)[run_cell(
            p,
            m,
        )] is HasShip by {
            if m > k {
                assert(mark_run(s1, p, k + 1)[run_cell(p, m)] is HasShip);
            }
        }
        assert forall|j: int|
            0 <= j < 100 && !(exists|m: int|
                k <= m < p.len && run_cell(p, m) == j) implies mark_run(s, p, k)[j] == s[j] by {
            assert(run_cell(p, k) != j);
            assert(!(exists|m2: int| k + 1 <= m2 < p.len && run_cell(p, m2) == j));
            assert(mark_run(s1, p, k + 1)[j] == s1[j]);
        }
    }
}

/// Whether board cell `j` lies on one of the runs.
pub open spec fn run_covered(ps: Seq<Placement>, j: int) -> bool {
    exists|k: int, m: int|
        0 <= k < ps.len() && 0 <= m < ps[k].len && #[trigger] run_cell(ps[k], m) == j
}

/// Placing a sequence of well-formed runs marks exactly the cells of those
/// runs: afterwards every cell of every run holds a ship, and every cell on
/// no run keeps its old state. On a board that started empty this means every
/// ship cell lies on one of the runs.
pub proof fn lemma_place_all_effect(s: Seq<TileState>, ps: Seq<Placement>)
    requires
        s.len() == 100,
        forall|k: int| 0 <= k < ps.len() ==> placement_wf(#[trigger] ps[k]),
    ensures
        place_all(s, ps).len() == 100,
        forall|k: int, m: int|
            0 <= k < ps.len() && 0 <= m < ps[k].len ==> place_all(s, ps)[#[trigger] run_cell(
                ps[k],
                m,
            )] is HasShip,
        forall|j: int| 0 <= j < 100 && !run_covered(ps, j) ==> place_all(s, ps)[j] == s[j],
    decreases ps.len(),
{
    if ps.len() > 0 {
        let ps0 = ps.drop_last();
        let p = ps.last();
        let last = ps.len() - 1;
        lemma_place_all_effect(s, ps0);
        let mid = place_all(s, ps0);
        lemma_mark_run_effect(mid, p, 0);
        let fin = place_all(s, ps);
        assert(fin == mark_run(mid, p, 0));
        assert(ps[last] == p);
        assert forall|k: int, m: int|
            0 <= k < ps.len() && 0 <= m < ps[k].len implies fin[#[trigger] run_cell(
            ps[k],
            m,
        )] is HasShip by {
            let j = run_cell(ps[k], m);
            lemma_run_cell_in_grid(ps[k], m);
            if exists|m2: int| 0 <= m2 < p.len && run_cell(p, m2) == j {
                // the cell is on the last run, which marks it
                let m2 = choose|m2: int| 0 <= m2 < p.len && run_cell(p, m2) == j;
                assert(fin[run_cell(p, m2)] is HasShip);
            } else if k == last {
                // the cell is on the last run by definition: contradiction
                assert(0 <= m < p.len && run_cell(p, m) == j);
                assert(false);
            } else {
                // the cell was marked by an earlier run and the last run
                // leaves it untouched
                assert(ps0[k] == ps[k]);
                assert(mid[run_cell(ps0[k], m)] is HasShip);
                assert(fin[j] == mid[j]);
            }
        }
        assert forall|j: int| 0 <= j < 100 && !run_covered(ps, j) implies fin[j] == s[j] by {
            assert(!run_covered(ps0, j)) by {
                if run_covered(ps0, j) {
                    let (k, m) = choose|k: int, m: int|
                        0 <= k < ps0.len() && 0 <= m < ps0[k].len && #[trigger] run_cell(
                            ps0[k],
                            m,
                        ) == j;
                    assert(ps[k] == ps0[k]);
                    assert(0 <= k < ps.len() && 0 <= m < ps[k].len && run_cell(ps[k], m) == j);
                }
            }
            assert(!(exists|m2: int| 0 <= m2 < p.len && run_cell(p, m2) == j)) by {
                if exists|m2: int| 0 <= m2 < p.len && run_cell(p, m2) == j {
                    let m2 = choose|m2: int| 0 <= m2 < p.len && run_cell(p, m2) == j;
                    assert(0 <= last < ps.len() && 0 <= m2 < ps[last].len && run_cell(
                        ps[last],
                        m2,
                    ) == j);
                }
            }
            assert(fin[j] == mid[j]);
        }
    }
}

/// Returns the length of the `i`-th ship of the fleet.
fn ship_size(i: usize) -> (r: usize)
    requires
        i < 5,
    ensures
        r == ship_sizes()[i as int],
        1 <= r <= 10,
{
    match i {
        0 => 2,
        1 => 3,
        2 => 3,
        3 => 4,
        _ => 5,
    }
}

/// Marks the `len` cells of one ship run as ship cells, starting at
/// (`col`, `row`) and running right when `horiz` is set, down otherwise.
pub fn place_run(field: &mut playfield, col: usize, row: usize, horiz: bool, len: usize)
    requires
        old(field).wf(),
        placement_wf(Placement { col: col as int, row: row as int, horiz, len: len as int }),
    ensures
        final(field).wf(),
        final(field)@ == mark_run(
            old(field)@,
            (Placement { col: col as int, row: row as int, horiz, len: len as int }),
            0,
        ),
{
    let ghost p = Placement { col: col as int, row: row as int, horiz, len: len as int };
    let mut k: usize = 0;
    while k < len
        invariant
            field.wf(),
            placement_wf(p),
            p.col == col && p.row == row && p.horiz == horiz && p.len == len,
            k <= len,
            mark_run(field@, p, k as int) == mark_run(old(field)@, p, 0),
        decreases len - k,
    {
        proof {
            lemma_run_cell_in_grid(p, k as int);
        }
        let cell: usize = if horiz {
            row * 10 + col + k
        } else {
            (row + k) * 10 + col
        };
        field.tiles[cell] = TileState::HasShip;
        k = k + 1;
    }
}

/// Places one ship of length `len` at a random spot: random origins and
/// directions are drawn until the run fits on the grid, with a bounded number
/// of retries; after the bound a fixed horizontal run at the origin is used,
/// which always fits.
fn place_one_ship(field: &mut playfield, len: usize) -> (p: Ghost<Placement>)
    requires
        old(field).wf(),
        1 <= len <= 10,
    ensures
        final(field).wf(),
        placement_wf(p@),
        p@.len == len,
        final(field)@ == mark_run(old(field)@, p@, 0),
{
    let mut tries: usize = 0;
    while tries < 10000
        invariant
            field.wf(),
            field@ == old(field)@,
            1 <= len <= 10,
        decreases 10000 - tries,
    {
        let col = random_below(10);
        let row = random_below(10);
        let horiz = random_coin();
        let fits = if horiz {
            col + len <= 10
        } else {
            row + len <= 10
        };
        if fits {
            place_run(field, col, row, horiz, len);
            return Ghost(
                Placement { col: col as int, row: row as int, horiz, len: len as int },
            );
        }
        tries = tries + 1;
    }
    place_run(field, 0, 0, true, len);
    Ghost(Placement { col: 0, row: 0, horiz: true, len: len as int })
}

/// Populates a board with the five ships of the fleet, each placed at random.
/// The result is the given board with five well-formed runs of lengths
/// 2, 3, 3, 4, 5 marked on it; the runs may overlap. At least one cell holds
/// a ship afterwards.
pub fn distribute_ships(field: &mut playfield)
    requires
        old(field).wf(),
    ensures
        final(field).wf(),
        exists|ps: Seq<Placement>|
            #![auto]
            fleet_placements(ps) && final(field)@ == place_all(old(field)@, ps),
        count_ships(final(field)@) >= 1,
{
    let ghost mut ps: Seq<Placement> = Seq::empty();
    let ghost mut last: Placement = Placement { col: 0, row: 0, horiz: true, len: 1 };
    let ghost mut body_view: Seq<TileState> = old(field)@;
    let mut i: usize = 0;
    while i < 5
        invariant
            field.wf(),
            i <= 5,
            ps.len() == i,
            forall|k: int|
                0 <= k < i ==> placement_wf(#[trigger] ps[k]) && ps[k].len == ship_sizes()[k],
            field@ == place_all(old(field)@, ps),
            i > 0 ==> ps.last() == last && body_view == place_all(old(field)@, ps.drop_last())
                && body_view.len() == 100 && field@ == mark_run(body_view, last, 0),
        decreases 5 - i,
    {
        let len = ship_size(i);
        let ghost prev = field@;
        let p = place_one_ship(field, len);
        proof {
            let ps2 = ps.push(p@);
            assert(ps2.drop_last() =~= ps);
            assert(ps2.last() == p@);
            ps = ps2;
            last = p@;
            body_view = prev;
        }
        i = i + 1;
    }
    proof {
        assert(fleet_placements(ps));
        lemma_mark_run_effect(body_view, last, 0);
        assert(field@[run_cell(last, 0)] is HasShip);
        lemma_run_cell_in_grid(last, 0);
        crate::board::lemma_count_ships_positive(field@, run_cell(last, 0));
    }
}

} // verus!
