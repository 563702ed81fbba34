//! Minesweeper engine: a flat grid of cells whose mine status is decided
//! lazily, the first time a cell is observed, by drawing from the
//! randomizer. Revealing a cell with no adjacent mines flood-fills its
//! whole zero-count-connected region together with the ring of numbered
//! cells around it.
use crate::randomizer::{advance, output_byte, Randomizer};
use vstd::prelude::*;

verus! {

broadcast use crate::grid::lemma_row_major_in_range, vstd::seq_lib::lemma_seq_contains,
    vstd::seq_lib::lemma_seq_contains_after_push, vstd::seq_lib::lemma_seq_empty_contains_nothing;

/// One cell of the minesweeper grid. `observed` gates the lazy mine
/// assignment: `mine` is only meaningful, and from then on stable, once
/// `observed` is set.
#[derive(Clone, Copy, PartialEq, Eq, Structural, Debug)]
pub struct Cell {
    pub mine: bool,
    pub revealed: bool,
    pub observed: bool,
    pub flagged: bool,
}

/// The cell every slot of a fresh board holds.
pub open spec fn default_cell() -> Cell {
    Cell { mine: false, revealed: false, observed: false, flagged: false }
}

/// Mathematical image of a minesweeper game: the grid as a sequence in
/// row-major order, plus cursor, randomizer state, score and the
/// first-click flag.
#[verifier::ext_equal]
pub ghost struct BoardView {
    pub width: int,
    pub height: int,
    pub cells: Seq<Cell>,
    pub cursor_x: int,
    pub cursor_y: int,
    pub rand: u64,
    pub score: int,
    pub first_click: bool,
}

impl BoardView {
    /// Row-major slot of the coordinates.
    pub open spec fn slot(self, x: int, y: int) -> int {
        y * self.width + x
    }

    pub open spec fn in_bounds(self, x: int, y: int) -> bool {
        0 <= x < self.width && 0 <= y < self.height
    }

    pub open spec fn cell(self, x: int, y: int) -> Cell {
        self.cells[self.slot(x, y)]
    }

    /// Every neighbor of the coordinates (edge-clipped) has been observed,
    /// so its mine status is settled.
    pub open spec fn neighbors_observed(self, x: int, y: int) -> bool {
        &&& x > 0 ==> self.cell(x - 1, y).observed
        &&& x > 0 && y > 0 ==> self.cell(x - 1, y - 1).observed
        &&& x > 0 && y + 1 < self.height ==> self.cell(x - 1, y + 1).observed
        &&& x + 1 < self.width ==> self.cell(x + 1, y).observed
        &&& x + 1 < self.width && y > 0 ==> self.cell(x + 1, y - 1).observed
        &&& x + 1 < self.width && y + 1 < self.height ==> self.cell(x + 1, y + 1).observed
        &&& y > 0 ==> self.cell(x, y - 1).observed
        &&& y + 1 < self.height ==> self.cell(x, y + 1).observed
    }

    /// Every neighbor of the coordinates (edge-clipped) is revealed.
    pub open spec fn neighbors_revealed(self, x: int, y: int) -> bool {
        &&& x > 0 ==> self.cell(x - 1, y).revealed
        &&& x > 0 && y > 0 ==> self.cell(x - 1, y - 1).revealed
        &&& x > 0 && y + 1 < self.height ==> self.cell(x - 1, y + 1).revealed
        &&& x + 1 < self.width ==> self.cell(x + 1, y).revealed
        &&& x + 1 < self.width && y > 0 ==> self.cell(x + 1, y - 1).revealed
        &&& x + 1 < self.width && y + 1 < self.height ==> self.cell(x + 1, y + 1).revealed
        &&& y > 0 ==> self.cell(x, y - 1).revealed
        &&& y + 1 < self.height ==> self.cell(x, y + 1).revealed
    }

    /// No neighbor of the coordinates holds a mine.
    pub open spec fn no_adjacent_mine(self, x: int, y: int) -> bool {
        &&& x > 0 ==> !self.cell(x - 1, y).mine
        &&& x > 0 && y > 0 ==> !self.cell(x - 1, y - 1).mine
        &&& x > 0 && y + 1 < self.height ==> !self.cell(x - 1, y + 1).mine
        &&& x + 1 < self.width ==> !self.cell(x + 1, y).mine
        &&& x + 1 < self.width && y > 0 ==> !self.cell(x + 1, y - 1).mine
        &&& x + 1 < self.width && y + 1 < self.height ==> !self.cell(x + 1, y + 1).mine
        &&& y > 0 ==> !self.cell(x, y - 1).mine
        &&& y + 1 < self.height ==> !self.cell(x, y + 1).mine
    }

    /// Mines among the three neighbors in the column to the left.
    pub open spec fn left_mine_count(self, x: int, y: int) -> int {
        (if x > 0 && self.cell(x - 1, y).mine { 1int } else { 0int })
            + (if x > 0 && y > 0 && self.cell(x - 1, y - 1).mine { 1int } else { 0int })
            + (if x > 0 && y + 1 < self.height && self.cell(x - 1, y + 1).mine { 1int } else { 0int })
    }

    /// Mines among the three neighbors in the column to the right.
    pub open spec fn right_mine_count(self, x: int, y: int) -> int {
        (if x + 1 < self.width && self.cell(x + 1, y).mine { 1int } else { 0int })
            + (if x + 1 < self.width && y > 0 && self.cell(x + 1, y - 1).mine { 1int } else { 0int })
            + (if x + 1 < self.width && y + 1 < self.height && self.cell(x + 1, y + 1).mine { 1int } else { 0int })
    }

    /// Mines among the two neighbors straight above and below.
    pub open spec fn vertical_mine_count(self, x: int, y: int) -> int {
        (if y > 0 && self.cell(x, y - 1).mine { 1int } else { 0int })
            + (if y + 1 < self.height && self.cell(x, y + 1).mine { 1int } else { 0int })
    }

    /// Number of mines among the neighbors of the coordinates.
    pub open spec fn adjacent_mine_count(self, x: int, y: int) -> int {
        self.left_mine_count(x, y) + self.right_mine_count(x, y) + self.vertical_mine_count(x, y)
    }

    /// The board after the three neighbors in the column to the left have
    /// been read, in the order left, left-up, left-down (edge-clipped).
    pub open spec fn observe_left_neighbors(self, x: int, y: int) -> BoardView {
        let b1 = if x > 0 { self.observe_step(self.slot(x - 1, y)) } else { self };
        let b2 = if x > 0 && y > 0 { b1.observe_step(b1.slot(x - 1, y - 1)) } else { b1 };
        let b3 = if x > 0 && y + 1 < self.height { b2.observe_step(b2.slot(x - 1, y + 1)) } else { b2 };
        b3
    }

    /// The board after the three neighbors in the column to the right have
    /// been read, in the order right, right-up, right-down (edge-clipped).
    pub open spec fn observe_right_neighbors(self, x: int, y: int) -> BoardView {
        let b1 = if x + 1 < self.width { self.observe_step(self.slot(x + 1, y)) } else { self };
        let b2 = if x + 1 < self.width && y > 0 { b1.observe_step(b1.slot(x + 1, y - 1)) } else { b1 };
        let b3 = if x + 1 < self.width && y + 1 < self.height { b2.observe_step(b2.slot(x + 1, y + 1)) } else { b2 };
        b3
    }

    /// The board after the neighbors straight above and below have been
    /// read, in the order up, down (edge-clipped).
    pub open spec fn observe_vertical_neighbors(self, x: int, y: int) -> BoardView {
        let b1 = if y > 0 { self.observe_step(self.slot(x, y - 1)) } else { self };
        let b2 = if y + 1 < self.height { b1.observe_step(b1.slot(x, y + 1)) } else { b1 };
        b2
    }

    /// The board after the neighbors of the coordinates have each been
    /// read once, in the fixed order left, left-up, left-down, right,
    /// right-up, right-down, up, down (edge-clipped).
    pub open spec fn observe_neighbors(self, x: int, y: int) -> BoardView {
        self.observe_left_neighbors(x, y).observe_right_neighbors(x, y).observe_vertical_neighbors(x, y)
    }

    /// The board after the cell in slot `c` has been read once: an already
    /// observed cell is left alone, an unobserved one has its mine status
    /// drawn from the randomizer and is marked observed.
    pub open spec fn observe_step(self, c: int) -> BoardView {
        if 0 <= c < self.cells.len() && !self.cells[c].observed {
            BoardView {
                cells: self.cells.update(
                    c,
                    (Cell {
                        mine: output_byte(advance(self.rand)) % 5 == 0,
                        revealed: self.cells[c].revealed,
                        observed: true,
                        flagged: self.cells[c].flagged,
                    }),
                ),
                rand: advance(self.rand),
                ..self
            }
        } else {
            self
        }
    }

    /// The cell is already revealed or still waiting on the work list.
    pub open spec fn cell_done(self, s: Seq<(u16, u16)>, x: int, y: int) -> bool {
        self.cell(x, y).revealed || s.contains(((x as u16, y as u16)))
    }

    /// Every neighbor of the coordinates is revealed or on the work list.
    pub open spec fn neighbors_done(self, s: Seq<(u16, u16)>, x: int, y: int) -> bool {
        &&& x > 0 ==> self.cell_done(s, x - 1, y)
        &&& x > 0 && y > 0 ==> self.cell_done(s, x - 1, y - 1)
        &&& x > 0 && y + 1 < self.height ==> self.cell_done(s, x - 1, y + 1)
        &&& x + 1 < self.width ==> self.cell_done(s, x + 1, y)
        &&& x + 1 < self.width && y > 0 ==> self.cell_done(s, x + 1, y - 1)
        &&& x + 1 < self.width && y + 1 < self.height ==> self.cell_done(s, x + 1, y + 1)
        &&& y > 0 ==> self.cell_done(s, x, y - 1)
        &&& y + 1 < self.height ==> self.cell_done(s, x, y + 1)
    }

    /// Every entry of the flood-fill work list is an in-bounds, observed,
    /// non-mine cell.
    pub open spec fn stack_ok(self, s: Seq<(u16, u16)>) -> bool {
        forall|k: int|
            0 <= k < s.len() ==> {
                &&& self.in_bounds((#[trigger] s[k]).0 as int, s[k].1 as int)
                &&& self.cell(s[k].0 as int, s[k].1 as int).observed
                &&& !self.cell(s[k].0 as int, s[k].1 as int).mine
            }
    }

    /// The flood-fill loop invariant: the reveal closure of `wf` holds up
    /// to cells still waiting on the work list.
    pub open spec fn pending_closure(self, s: Seq<(u16, u16)>) -> bool {
        forall|x: int, y: int|
            self.in_bounds(x, y) && (#[trigger] self.cell(x, y)).revealed ==> {
                &&& self.cell(x, y).observed
                &&& !self.cell(x, y).mine
                &&& self.neighbors_observed(x, y)
                &&& self.no_adjacent_mine(x, y) ==> self.neighbors_done(s, x, y)
            }
    }

    /// The board after the first `n` slots have each been read once, in
    /// slot order.
    pub open spec fn observe_upto(self, n: int) -> BoardView
        decreases n,
    {
        if n <= 0 {
            self
        } else {
            self.observe_upto(n - 1).observe_step(n - 1)
        }
    }

    /// The same board with another randomizer state.
    pub open spec fn with_rand(self, r: u64) -> BoardView {
        BoardView { rand: r, ..self }
    }

    /// The board after the cell at the coordinates has been read once
    /// and its mine flag then forcibly cleared; the first-click
    /// exemption is made of these steps.
    pub open spec fn clear_step(self, x: int, y: int) -> BoardView {
        let b = self.observe_step(self.slot(x, y));
        b.with_cell(
            b.slot(x, y),
            (Cell {
                mine: false,
                revealed: b.cells[b.slot(x, y)].revealed,
                observed: true,
                flagged: b.cells[b.slot(x, y)].flagged,
            }),
        )
    }

    /// The board after the three left-column neighbors have been cleared.
    pub open spec fn cleared_left(self, x: int, y: int) -> BoardView {
        let b1 = if x > 0 { self.clear_step(x - 1, y) } else { self };
        let b2 = if x > 0 && y > 0 { b1.clear_step(x - 1, y - 1) } else { b1 };
        let b3 = if x > 0 && y + 1 < self.height { b2.clear_step(x - 1, y + 1) } else { b2 };
        b3
    }

    /// The board after the three right-column neighbors have been cleared.
    pub open spec fn cleared_right(self, x: int, y: int) -> BoardView {
        let b1 = if x + 1 < self.width { self.clear_step(x + 1, y) } else { self };
        let b2 = if x + 1 < self.width && y > 0 { b1.clear_step(x + 1, y - 1) } else { b1 };
        let b3 = if x + 1 < self.width && y + 1 < self.height { b2.clear_step(x + 1, y + 1) } else { b2 };
        b3
    }

    /// The board after the two vertical neighbors and then the cell
    /// itself have been cleared.
    pub open spec fn cleared_vertical_center(self, x: int, y: int) -> BoardView {
        let b1 = if y > 0 { self.clear_step(x, y - 1) } else { self };
        let b2 = if y + 1 < self.height { b1.clear_step(x, y + 1) } else { b1 };
        b2.clear_step(x, y)
    }

    /// The board after the first click's exemption: the cell and every
    /// neighbor it has are cleared of mines, in the fixed neighbor order
    /// with the cell itself last.
    pub open spec fn first_click_cleared(self, x: int, y: int) -> BoardView {
        self.cleared_left(x, y).cleared_right(x, y).cleared_vertical_center(x, y)
    }

    /// The board with slot `c` replaced.
    pub open spec fn with_cell(self, c: int, cell: Cell) -> BoardView {
        BoardView { cells: self.cells.update(c, cell), ..self }
    }

    /// Structural well-formedness plus the two facts the engine maintains
    /// of every revealed cell: its mine status and those of all its
    /// neighbors are settled and non-mine under it, and a revealed cell
    /// with no adjacent mine has all its neighbors revealed (the flood
    /// fill has run to completion through it).
    pub open spec fn wf(self) -> bool {
        &&& self.dims_ok()
        &&& self.first_click ==> forall|i: int|
            0 <= i < self.cells.len() ==> !(#[trigger] self.cells[i]).revealed
        &&& self.revealed_closure()
    }

    /// The structural part of well-formedness: grid dimensions and cursor
    /// bounds.
    pub open spec fn dims_ok(self) -> bool {
        &&& 0 < self.width <= u16::MAX
        &&& 0 < self.height <= u16::MAX
        &&& self.width * self.height <= u16::MAX
        &&& self.cells.len() == self.width * self.height
        &&& 0 <= self.cursor_x < self.width
        &&& 0 <= self.cursor_y < self.height
    }

    /// The invariant part about revealed cells; see `wf`.
    #[verifier::opaque]
    pub open spec fn revealed_closure(self) -> bool {
        forall|x: int, y: int|
            self.in_bounds(x, y) && (#[trigger] self.cell(x, y)).revealed ==> {
                &&& self.cell(x, y).observed
                &&& !self.cell(x, y).mine
                &&& self.neighbors_observed(x, y)
                &&& self.no_adjacent_mine(x, y) ==> self.neighbors_revealed(x, y)
            }
    }
}

/// Reading a cell is idempotent: once a cell has been observed, observing
/// it again changes nothing, so its mine status is stable across repeated
/// reads after the first.
pub proof fn lemma_observe_idempotent(b: BoardView, c: int)
    ensures
        b.observe_step(c).observe_step(c) == b.observe_step(c),
{
}

/// Observing a cell preserves the board invariant: it never touches a
/// settled mine status, a revealed flag, or a user flag.
#[verifier::rlimit(60)]
pub proof fn lemma_observe_step_wf(b: BoardView, c: int)
    requires
        b.wf(),
    ensures
        b.observe_step(c).wf(),
{
    reveal(BoardView::revealed_closure);
    let b2 = b.observe_step(c);
    assert forall|x: int, y: int|
        b2.in_bounds(x, y) && (#[trigger] b2.cell(x, y)).revealed implies {
        &&& b2.cell(x, y).observed
        &&& !b2.cell(x, y).mine
        &&& b2.neighbors_observed(x, y)
        &&& b2.no_adjacent_mine(x, y) ==> b2.neighbors_revealed(x, y)
    } by {
        assert(b.cell(x, y).revealed);
    }
}

/// Observing one cell leaves every already observed cell exactly as it
/// was, keeps every revealed and flagged mark, and changes no field of
/// the game besides the grid and the randomizer.
pub proof fn lemma_observe_preserves_observed(b: BoardView, c: int)
    ensures
        b.observe_step(c).cells.len() == b.cells.len(),
        b.observe_step(c).width == b.width,
        b.observe_step(c).height == b.height,
        b.observe_step(c).cursor_x == b.cursor_x,
        b.observe_step(c).cursor_y == b.cursor_y,
        b.observe_step(c).score == b.score,
        b.observe_step(c).first_click == b.first_click,
        forall|i: int|
            0 <= i < b.cells.len() && b.cells[i].observed ==> #[trigger] b.observe_step(
                c,
            ).cells[i] == b.cells[i],
        forall|i: int|
            0 <= i < b.cells.len() ==> (#[trigger] b.observe_step(c).cells[i]).revealed
                == b.cells[i].revealed && b.observe_step(c).cells[i].flagged == b.cells[i].flagged
                && (b.cells[i].observed ==> b.observe_step(c).cells[i].observed),
{
}

/// Changing nothing but the `flagged` field of one cell preserves the
/// board invariant.
#[verifier::rlimit(100)]
pub proof fn lemma_flag_only_update_wf(b: BoardView, c: int, cell: Cell)
    requires
        b.wf(),
        0 <= c < b.cells.len(),
        cell.mine == b.cells[c].mine,
        cell.revealed == b.cells[c].revealed,
        cell.observed == b.cells[c].observed,
    ensures
        b.with_cell(c, cell).wf(),
{
    reveal(BoardView::revealed_closure);
    let b2 = b.with_cell(c, cell);
    assert forall|x: int, y: int|
        b2.in_bounds(x, y) && (#[trigger] b2.cell(x, y)).revealed implies {
        &&& b2.cell(x, y).observed
        &&& !b2.cell(x, y).mine
        &&& b2.neighbors_observed(x, y)
        &&& b2.no_adjacent_mine(x, y) ==> b2.neighbors_revealed(x, y)
    } by {
        assert(b.cell(x, y).revealed);
        assert(b.neighbors_observed(x, y));
    }
}

/// Number of cells of the grid that are not yet revealed; the measure
/// that shrinks as the flood fill makes progress.
pub open spec fn count_unrevealed(cells: Seq<Cell>) -> nat
    decreases cells.len(),
{
    if cells.len() == 0 {
        0
    } else {
        count_unrevealed(cells.drop_last()) + if cells.last().revealed {
            0nat
        } else {
            1nat
        }
    }
}

/// Two grids that agree on which cells are revealed have the same number
/// of unrevealed cells.
pub proof fn lemma_count_unrevealed_same(a: Seq<Cell>, b: Seq<Cell>)
    requires
        a.len() == b.len(),
        forall|i: int| 0 <= i < a.len() ==> (#[trigger] a[i]).revealed == b[i].revealed,
    ensures
        count_unrevealed(a) == count_unrevealed(b),
    decreases a.len(),
{
    if a.len() > 0 {
        lemma_count_unrevealed_same(a.drop_last(), b.drop_last());
    }
}

/// Revealing a previously unrevealed cell strictly shrinks the count of
/// unrevealed cells.
pub proof fn lemma_count_unrevealed_update(cells: Seq<Cell>, i: int, c: Cell)
    requires
        0 <= i < cells.len(),
        !cells[i].revealed,
        c.revealed,
    ensures
        count_unrevealed(cells.update(i, c)) < count_unrevealed(cells),
    decreases cells.len(),
{
    let u = cells.update(i, c);
    if i == cells.len() - 1 {
        assert(u.drop_last() =~= cells.drop_last());
    } else {
        assert(u.drop_last() =~= cells.drop_last().update(i, c));
        lemma_count_unrevealed_update(cells.drop_last(), i, c);
    }
}

/// An element of a non-empty sequence is its last element or an element
/// of the rest.
pub proof fn lemma_contains_drop_last(s: Seq<(u16, u16)>, v: (u16, u16))
    requires
        s.len() > 0,
        s.contains(v),
    ensures
        v == s.last() || s.drop_last().contains(v),
{
    let k = choose|k: int| 0 <= k < s.len() && s[k] == v;
    if k < s.len() - 1 {
        assert(s.drop_last()[k] == v);
    }
}

/// A well-formed board satisfies the flood-fill invariant for any work
/// list: the closure clause is simply never deferred.
pub proof fn lemma_closure_implies_pending(b: BoardView, s: Seq<(u16, u16)>)
    requires
        b.revealed_closure(),
    ensures
        b.pending_closure(s),
{
    reveal(BoardView::revealed_closure);
}

/// With an empty work list the flood-fill invariant is exactly the
/// reveal closure of `wf`.
pub proof fn lemma_pending_empty_is_closure(b: BoardView, s: Seq<(u16, u16)>)
    requires
        b.pending_closure(s),
        s.len() == 0,
    ensures
        b.revealed_closure(),
{
    reveal(BoardView::revealed_closure);
    assert forall|x: int, y: int|
        b.in_bounds(x, y) && (#[trigger] b.cell(x, y)).revealed implies {
        &&& b.cell(x, y).observed
        &&& !b.cell(x, y).mine
        &&& b.neighbors_observed(x, y)
        &&& b.no_adjacent_mine(x, y) ==> b.neighbors_revealed(x, y)
    } by {
        assert(forall|v: (u16, u16)| !s.contains(v));
    }
}

/// A board change that leaves every observed cell alone and no cell's
/// revealed mark changed preserves the flood-fill invariant and the work
/// list facts.
#[verifier::rlimit(100)]
pub proof fn lemma_pending_preserved_by_observation(
    b: BoardView,
    b2: BoardView,
    s: Seq<(u16, u16)>,
)
    requires
        b.dims_ok(),
        b2.width == b.width,
        b2.height == b.height,
        b2.cells.len() == b.cells.len(),
        forall|i: int|
            0 <= i < b.cells.len() && b.cells[i].observed ==> #[trigger] b2.cells[i] == b.cells[i],
        forall|i: int|
            0 <= i < b.cells.len() ==> (#[trigger] b2.cells[i]).revealed == b.cells[i].revealed,
        b.stack_ok(s),
        b.pending_closure(s),
    ensures
        b2.stack_ok(s),
        b2.pending_closure(s),
{
    assert forall|k: int| 0 <= k < s.len() implies {
        &&& b2.in_bounds((#[trigger] s[k]).0 as int, s[k].1 as int)
        &&& b2.cell(s[k].0 as int, s[k].1 as int).observed
        &&& !b2.cell(s[k].0 as int, s[k].1 as int).mine
    } by {
        assert(b.in_bounds(s[k].0 as int, s[k].1 as int));
        assert(b.cell(s[k].0 as int, s[k].1 as int).observed);
    }
    assert forall|x: int, y: int|
        b2.in_bounds(x, y) && (#[trigger] b2.cell(x, y)).revealed implies {
        &&& b2.cell(x, y).observed
        &&& !b2.cell(x, y).mine
        &&& b2.neighbors_observed(x, y)
        &&& b2.no_adjacent_mine(x, y) ==> b2.neighbors_done(s, x, y)
    } by {
        assert(b.cell(x, y).revealed);
        assert(b.cell(x, y).observed);
        assert(b.neighbors_observed(x, y));
    }
}

/// A board change that leaves every observed cell alone and no cell's
/// revealed mark changed preserves the full reveal closure.
#[verifier::rlimit(100)]
pub proof fn lemma_closure_preserved_by_observation(b: BoardView, b2: BoardView)
    requires
        b.dims_ok(),
        b2.width == b.width,
        b2.height == b.height,
        b2.cells.len() == b.cells.len(),
        forall|i: int|
            0 <= i < b.cells.len() && b.cells[i].observed ==> #[trigger] b2.cells[i] == b.cells[i],
        forall|i: int|
            0 <= i < b.cells.len() ==> (#[trigger] b2.cells[i]).revealed == b.cells[i].revealed,
        b.revealed_closure(),
    ensures
        b2.revealed_closure(),
{
    reveal(BoardView::revealed_closure);
    assert forall|x: int, y: int|
        b2.in_bounds(x, y) && (#[trigger] b2.cell(x, y)).revealed implies {
        &&& b2.cell(x, y).observed
        &&& !b2.cell(x, y).mine
        &&& b2.neighbors_observed(x, y)
        &&& b2.no_adjacent_mine(x, y) ==> b2.neighbors_revealed(x, y)
    } by {
        assert(b.cell(x, y).revealed);
        assert(b.cell(x, y).observed);
        assert(b.neighbors_observed(x, y));
    }
}

/// One clearing step keeps every cell's revealed and flagged marks,
/// never unobserves a cell, changes no observed cell's mine status except
/// to clear it, and leaves its own target observed and mine-free.
#[verifier::rlimit(100)]
pub proof fn lemma_clear_one_frame(b: BoardView, x: int, y: int)
    requires
        b.dims_ok(),
        b.in_bounds(x, y),
    ensures
        b.clear_step(x, y).cells.len() == b.cells.len(),
        b.clear_step(x, y).width == b.width,
        b.clear_step(x, y).height == b.height,
        b.clear_step(x, y).cursor_x == b.cursor_x,
        b.clear_step(x, y).cursor_y == b.cursor_y,
        b.clear_step(x, y).score == b.score,
        b.clear_step(x, y).first_click == b.first_click,
        forall|i: int|
            0 <= i < b.cells.len() ==> {
                &&& (#[trigger] b.clear_step(x, y).cells[i]).revealed == b.cells[i].revealed
                &&& b.clear_step(x, y).cells[i].flagged == b.cells[i].flagged
                &&& (b.cells[i].observed ==> b.clear_step(x, y).cells[i].observed)
                &&& (b.cells[i].observed ==> b.clear_step(x, y).cells[i].mine == b.cells[i].mine
                    || !b.clear_step(x, y).cells[i].mine)
            },
        !b.clear_step(x, y).cell(x, y).mine,
        b.clear_step(x, y).cell(x, y).observed,
{
}

/// Taking an already revealed cell off the work list keeps the
/// flood-fill invariant: whatever deferred to that entry is satisfied by
/// the cell being revealed.
#[verifier::rlimit(100)]
pub proof fn lemma_pending_after_pop(b: BoardView, s: Seq<(u16, u16)>, x: int, y: int)
    requires
        b.dims_ok(),
        b.in_bounds(x, y),
        b.cell(x, y).revealed,
        b.stack_ok(s.push(((x as u16, y as u16)))),
        b.pending_closure(s.push(((x as u16, y as u16)))),
    ensures
        b.stack_ok(s),
        b.pending_closure(s),
{
    let top = ((x as u16, y as u16));
    let st = s.push(top);
    assert(top.0 as int == x && top.1 as int == y);
    assert forall|k: int| 0 <= k < s.len() implies {
        &&& b.in_bounds((#[trigger] s[k]).0 as int, s[k].1 as int)
        &&& b.cell(s[k].0 as int, s[k].1 as int).observed
        &&& !b.cell(s[k].0 as int, s[k].1 as int).mine
    } by {
        assert(st[k] == s[k]);
    }
    assert forall|qx: int, qy: int|
        b.in_bounds(qx, qy) && (#[trigger] b.cell(qx, qy)).revealed implies {
        &&& b.cell(qx, qy).observed
        &&& !b.cell(qx, qy).mine
        &&& b.neighbors_observed(qx, qy)
        &&& b.no_adjacent_mine(qx, qy) ==> b.neighbors_done(s, qx, qy)
    } by {
        assert(b.neighbors_done(st, qx, qy) || !b.no_adjacent_mine(qx, qy));
    }
}

/// Revealing the cell just taken off the work list, and queueing its
/// neighbors when it has no adjacent mine, re-establishes the flood-fill
/// invariant.
#[verifier::rlimit(100)]
pub proof fn lemma_flood_reassemble(
    b1: BoardView,
    b2: BoardView,
    s_in: Seq<(u16, u16)>,
    s_out: Seq<(u16, u16)>,
    x: int,
    y: int,
    zero: bool,
)
    requires
        b1.dims_ok(),
        b1.in_bounds(x, y),
        b1.stack_ok(s_in.push(((x as u16, y as u16)))),
        b1.pending_closure(s_in.push(((x as u16, y as u16)))),
        b1.neighbors_observed(x, y),
        b1.cell(x, y).observed,
        !b1.cell(x, y).mine,
        zero == b1.no_adjacent_mine(x, y),
        b2.width == b1.width,
        b2.height == b1.height,
        b2.cells == b1.cells.update(
            b1.slot(x, y),
            (Cell {
                mine: b1.cell(x, y).mine,
                revealed: true,
                observed: true,
                flagged: b1.cell(x, y).flagged,
            }),
        ),
        forall|v: (u16, u16)| s_in.contains(v) ==> s_out.contains(v),
        zero ==> b2.neighbors_done(s_out, x, y),
        zero ==> b2.stack_ok(s_out),
        !zero ==> s_out == s_in,
    ensures
        b2.stack_ok(s_out),
        b2.pending_closure(s_out),
{
    let top = ((x as u16, y as u16));
    let st = s_in.push(top);
    let p = b1.slot(x, y);
    assert(top.0 as int == x && top.1 as int == y);
    if !zero {
        assert forall|k: int| 0 <= k < s_out.len() implies {
            &&& b2.in_bounds((#[trigger] s_out[k]).0 as int, s_out[k].1 as int)
            &&& b2.cell(s_out[k].0 as int, s_out[k].1 as int).observed
            &&& !b2.cell(s_out[k].0 as int, s_out[k].1 as int).mine
        } by {
            assert(st[k] == s_in[k]);
            assert(b1.in_bounds(s_in[k].0 as int, s_in[k].1 as int));
            assert(b1.cell(s_in[k].0 as int, s_in[k].1 as int).observed);
        }
    }
    assert forall|qx: int, qy: int|
        b2.in_bounds(qx, qy) && (#[trigger] b2.cell(qx, qy)).revealed implies {
        &&& b2.cell(qx, qy).observed
        &&& !b2.cell(qx, qy).mine
        &&& b2.neighbors_observed(qx, qy)
        &&& b2.no_adjacent_mine(qx, qy) ==> b2.neighbors_done(s_out, qx, qy)
    } by {
        if qx == x && qy == y {
            assert(b2.cell(x, y).observed);
            assert(!b2.cell(x, y).mine);
            assert(b2.neighbors_observed(x, y));
            if b2.no_adjacent_mine(x, y) {
                assert(b1.no_adjacent_mine(x, y));
                assert(b2.neighbors_done(s_out, x, y));
            }
        } else {
            crate::grid::lemma_row_major_injective(b2.width, qx, qy, x, y);
            assert(b2.slot(qx, qy) != p);
            assert(b1.cell(qx, qy).revealed);
            assert(b1.cell(qx, qy).observed);
            assert(!b1.cell(qx, qy).mine);
            assert(b1.neighbors_observed(qx, qy));
            if b2.no_adjacent_mine(qx, qy) {
                assert(b1.no_adjacent_mine(qx, qy));
                assert(b1.neighbors_done(st, qx, qy));
            }
        }
    }
}

/// The minesweeper game state.
pub struct MineSweeper {
    width: u16,
    height: u16,
    grid: Vec<Cell>,
    x: u16,
    y: u16,
    rand: Randomizer,
    score: u16,
    first_click: bool,
}

impl View for MineSweeper {
    type V = BoardView;

    closed spec fn view(&self) -> BoardView {
        BoardView {
            width: self.width as int,
            height: self.height as int,
            cells: self.grid@,
            cursor_x: self.x as int,
            cursor_y: self.y as int,
            rand: self.rand@,
            score: self.score as int,
            first_click: self.first_click,
        }
    }
}

impl MineSweeper {
    /// A fresh board: all cells default (not observed, so no mine is
    /// decided yet), cursor in the corner, score zero, first click still
    /// pending.
    pub fn new(width: u16, height: u16, seed: u64) -> (game: MineSweeper)
        requires
            0 < width,
            0 < height,
            width * height <= u16::MAX,
        ensures
            game@.wf(),
            game@.width == width,
            game@.height == height,
            game@.cells.len() == width * height,
            forall|i: int| 0 <= i < game@.cells.len() ==> game@.cells[i] == default_cell(),
            game@.cursor_x == 0,
            game@.cursor_y == 0,
            game@.rand == crate::randomizer::seed_state(seed),
            game@.score == 0,
            game@.first_click,
    {
        let n: usize = (width as usize) * (height as usize);
        let mut grid: Vec<Cell> = Vec::new();
        let mut i: usize = 0;
        while i < n
            invariant
                i <= n,
                grid@.len() == i,
                forall|j: int| 0 <= j < i ==> grid@[j] == default_cell(),
            decreases n - i,
        {
            grid.push(Cell { mine: false, revealed: false, observed: false, flagged: false });
            i = i + 1;
        }
        proof {
            reveal(BoardView::revealed_closure);
        }
        MineSweeper {
            width,
            height,
            grid,
            x: 0,
            y: 0,
            rand: Randomizer::new(seed),
            score: 0,
            first_click: true,
        }
    }

    /// Reset the game: every cell back to default, score zero, first click
    /// pending again. The randomizer keeps its state, as does the cursor.
    pub fn reset(&mut self)
        requires
            old(self)@.wf(),
        ensures
            final(self)@.wf(),
            final(self)@.width == old(self)@.width,
            final(self)@.height == old(self)@.height,
            final(self)@.cells.len() == old(self)@.cells.len(),
            forall|i: int|
                0 <= i < final(self)@.cells.len() ==> final(self)@.cells[i] == default_cell(),
            final(self)@.cursor_x == old(self)@.cursor_x,
            final(self)@.cursor_y == old(self)@.cursor_y,
            final(self)@.rand == old(self)@.rand,
            final(self)@.score == 0,
            final(self)@.first_click,
    {
        let n: usize = self.grid.len();
        let mut i: usize = 0;
        while i < n
            invariant
                i <= n,
                n == self.grid@.len(),
                forall|j: int| 0 <= j < i ==> self.grid@[j] == default_cell(),
                self.width == old(self).width,
                self.height == old(self).height,
                self.x == old(self).x,
                self.y == old(self).y,
                self.rand == old(self).rand,
                old(self)@.wf(),
            decreases n - i,
        {
            self.grid[i] = Cell { mine: false, revealed: false, observed: false, flagged: false };
            i = i + 1;
        }
        self.score = 0;
        self.first_click = true;
        proof {
            reveal(BoardView::revealed_closure);
        }
    }

    /// Row-major index of the coordinates in the grid.
    pub fn pos(&self, x: u16, y: u16) -> (p: usize)
        requires
            self@.dims_ok(),
            self@.in_bounds(x as int, y as int),
        ensures
            p == self@.slot(x as int, y as int),
            p < self@.cells.len(),
    {
        proof {
            let xi: int = x as int;
            let yi: int = y as int;
            let w: int = self@.width;
            let h: int = self@.height;
            assert(0 <= yi * w + xi && yi * w + xi < w * h) by (nonlinear_arith)
                requires
                    0 <= xi,
                    xi < w,
                    0 <= yi,
                    yi < h,
            ;
        }
        y as usize * self.width as usize + x as usize
    }

    /// Decide the cell's mine status if this is its first read, drawing
    /// from the randomizer; afterwards the cell is observed and its mine
    /// status stable.
    pub fn read_cell(&mut self, c: usize)
        requires
            old(self)@.dims_ok(),
            c < old(self)@.cells.len(),
        ensures
            final(self)@ == old(self)@.observe_step(c as int),
            final(self)@.dims_ok(),
    {
        if !self.grid[c].observed {
            let b: u8 = self.rand.read_u8();
            self.grid[c].mine = b % 5 == 0;
            self.grid[c].observed = true;
            assert(final(self)@.cells =~= old(self)@.observe_step(c as int).cells);
        }
    }

    /// Read the cell at the coordinates, deciding its mine status on first
    /// read.
    pub fn get(&mut self, x: u16, y: u16) -> (cell: Cell)
        requires
            old(self)@.dims_ok(),
            old(self)@.in_bounds(x as int, y as int),
        ensures
            final(self)@ == old(self)@.observe_step(old(self)@.slot(x as int, y as int)),
            final(self)@.dims_ok(),
            cell == final(self)@.cell(x as int, y as int),
    {
        let p: usize = self.pos(x, y);
        self.read_cell(p);
        self.grid[p]
    }

    /// Flag the cell at the coordinates, unless it is already revealed.
    pub fn set_flag(&mut self, x: u16, y: u16)
        requires
            old(self)@.wf(),
            old(self)@.in_bounds(x as int, y as int),
        ensures
            final(self)@.wf(),
            ({
                let b = old(self)@.observe_step(old(self)@.slot(x as int, y as int));
                let c = b.cells[b.slot(x as int, y as int)];
                final(self)@ == if !c.revealed {
                    b.with_cell(
                        b.slot(x as int, y as int),
                        (Cell { mine: c.mine, revealed: c.revealed, observed: c.observed, flagged: true }),
                    )
                } else {
                    b
                }
            }),
    {
        let p: usize = self.pos(x, y);
        self.read_cell(p);
        proof {
            lemma_observe_step_wf(old(self)@, p as int);
        }
        if !self.grid[p].revealed {
            self.grid[p].flagged = true;
            proof {
                lemma_flag_only_update_wf(
                    old(self)@.observe_step(p as int),
                    p as int,
                    self@.cells[p as int],
                );
                assert(self@ =~= old(self)@.observe_step(p as int).with_cell(
                    p as int,
                    self@.cells[p as int],
                ));
            }
        }
    }

    /// Unflag the cell at the coordinates.
    pub fn remove_flag(&mut self, x: u16, y: u16)
        requires
            old(self)@.wf(),
            old(self)@.in_bounds(x as int, y as int),
        ensures
            final(self)@.wf(),
            ({
                let b = old(self)@.observe_step(old(self)@.slot(x as int, y as int));
                let c = b.cells[b.slot(x as int, y as int)];
                final(self)@ == b.with_cell(
                    b.slot(x as int, y as int),
                    (Cell { mine: c.mine, revealed: c.revealed, observed: c.observed, flagged: false }),
                )
            }),
    {
        let p: usize = self.pos(x, y);
        self.read_cell(p);
        self.grid[p].flagged = false;
        proof {
            lemma_observe_step_wf(old(self)@, p as int);
            lemma_flag_only_update_wf(
                old(self)@.observe_step(p as int),
                p as int,
                self@.cells[p as int],
            );
            assert(self@ =~= old(self)@.observe_step(p as int).with_cell(
                p as int,
                self@.cells[p as int],
            ));
        }
    }

    /// Toggle the flag on the cell at the coordinates; a revealed cell
    /// stays unflagged.
    pub fn toggle_flag(&mut self, x: u16, y: u16)
        requires
            old(self)@.wf(),
            old(self)@.in_bounds(x as int, y as int),
        ensures
            final(self)@.wf(),
            ({
                let b = old(self)@.observe_step(old(self)@.slot(x as int, y as int));
                let c = b.cells[b.slot(x as int, y as int)];
                final(self)@ == if c.flagged {
                    b.with_cell(
                        b.slot(x as int, y as int),
                        (Cell { mine: c.mine, revealed: c.revealed, observed: c.observed, flagged: false }),
                    )
                } else if !c.revealed {
                    b.with_cell(
                        b.slot(x as int, y as int),
                        (Cell { mine: c.mine, revealed: c.revealed, observed: c.observed, flagged: true }),
                    )
                } else {
                    b
                }
            }),
    {
        let flagged_now: bool = self.get(x, y).flagged;
        proof {
            lemma_observe_step_wf(old(self)@, old(self)@.slot(x as int, y as int));
        }
        if flagged_now {
            self.remove_flag(x, y);
        } else {
            self.set_flag(x, y);
        }
    }

    /// Read the three neighbors in the column to the left, in order,
    /// and count their mines.
    #[verifier::rlimit(100)]
    fn observe_left(&mut self, x: u16, y: u16) -> (n: u8)
        requires
            old(self)@.dims_ok(),
            old(self)@.in_bounds(x as int, y as int),
        ensures
            final(self)@ == old(self)@.observe_left_neighbors(x as int, y as int),
            final(self)@.dims_ok(),
            final(self)@.width == old(self)@.width,
            final(self)@.height == old(self)@.height,
            final(self)@.cells.len() == old(self)@.cells.len(),
            forall|i: int|
                0 <= i < old(self)@.cells.len() && old(self)@.cells[i].observed
                    ==> #[trigger] final(self)@.cells[i] == old(self)@.cells[i],
            final(self)@.cursor_x == old(self)@.cursor_x,
            final(self)@.cursor_y == old(self)@.cursor_y,
            final(self)@.score == old(self)@.score,
            final(self)@.first_click == old(self)@.first_click,
            forall|i: int|
                0 <= i < old(self)@.cells.len() ==> (#[trigger] final(self)@.cells[i]).revealed
                    == old(self)@.cells[i].revealed && final(self)@.cells[i].flagged
                    == old(self)@.cells[i].flagged && (old(self)@.cells[i].observed
                    ==> final(self)@.cells[i].observed),
            x as int > 0 ==> final(self)@.cell(x as int - 1, y as int).observed,
            x as int > 0 && y as int > 0 ==> final(self)@.cell(x as int - 1, y as int - 1).observed,
            x as int > 0 && y as int + 1 < old(self)@.height ==> final(self)@.cell(
                x as int - 1,
                y as int + 1,
            ).observed,
            n == final(self)@.left_mine_count(x as int, y as int),
            n <= 3,
    {
        let ghost xi: int = x as int;
        let ghost yi: int = y as int;
        let ghost b0 = self@;
        let mut res: u8 = 0;
        if x > 0 {
            if self.get(x - 1, y).mine {
                res = res + 1;
            }
        }
        let ghost b1 = self@;
        proof {
            lemma_observe_preserves_observed(b0, b0.slot(xi - 1, yi));
        }
        if x > 0 && y > 0 {
            if self.get(x - 1, y - 1).mine {
                res = res + 1;
            }
        }
        let ghost b2 = self@;
        proof {
            lemma_observe_preserves_observed(b1, b1.slot(xi - 1, yi - 1));
        }
        if x > 0 && y + 1 < self.height {
            if self.get(x - 1, y + 1).mine {
                res = res + 1;
            }
        }
        let ghost b3 = self@;
        proof {
            lemma_observe_preserves_observed(b2, b2.slot(xi - 1, yi + 1));
            assert(b3 == b0.observe_left_neighbors(xi, yi));
        }
        res
    }

    /// Read the three neighbors in the column to the right, in order,
    /// and count their mines.
    #[verifier::rlimit(100)]
    fn observe_right(&mut self, x: u16, y: u16) -> (n: u8)
        requires
            old(self)@.dims_ok(),
            old(self)@.in_bounds(x as int, y as int),
        ensures
            final(self)@ == old(self)@.observe_right_neighbors(x as int, y as int),
            final(self)@.dims_ok(),
            final(self)@.width == old(self)@.width,
            final(self)@.height == old(self)@.height,
            final(self)@.cells.len() == old(self)@.cells.len(),
            forall|i: int|
                0 <= i < old(self)@.cells.len() && old(self)@.cells[i].observed
                    ==> #[trigger] final(self)@.cells[i] == old(self)@.cells[i],
            final(self)@.cursor_x == old(self)@.cursor_x,
            final(self)@.cursor_y == old(self)@.cursor_y,
            final(self)@.score == old(self)@.score,
            final(self)@.first_click == old(self)@.first_click,
            forall|i: int|
                0 <= i < old(self)@.cells.len() ==> (#[trigger] final(self)@.cells[i]).revealed
                    == old(self)@.cells[i].revealed && final(self)@.cells[i].flagged
                    == old(self)@.cells[i].flagged && (old(self)@.cells[i].observed
                    ==> final(self)@.cells[i].observed),
            x as int + 1 < old(self)@.width ==> final(self)@.cell(x as int + 1, y as int).observed,
            x as int + 1 < old(self)@.width && y as int > 0 ==> final(self)@.cell(
                x as int + 1,
                y as int - 1,
            ).observed,
            x as int + 1 < old(self)@.width && y as int + 1 < old(self)@.height ==> final(self)@.cell(
                x as int + 1,
                y as int + 1,
            ).observed,
            n == final(self)@.right_mine_count(x as int, y as int),
            n <= 3,
    {
        let ghost xi: int = x as int;
        let ghost yi: int = y as int;
        let ghost b0 = self@;
        let mut res: u8 = 0;
        if x + 1 < self.width {
            if self.get(x + 1, y).mine {
                res = res + 1;
            }
        }
        let ghost b1 = self@;
        proof {
            lemma_observe_preserves_observed(b0, b0.slot(xi + 1, yi));
        }
        if x + 1 < self.width && y > 0 {
            if self.get(x + 1, y - 1).mine {
                res = res + 1;
            }
        }
        let ghost b2 = self@;
        proof {
            lemma_observe_preserves_observed(b1, b1.slot(xi + 1, yi - 1));
        }
        if x + 1 < self.width && y + 1 < self.height {
            if self.get(x + 1, y + 1).mine {
                res = res + 1;
            }
        }
        let ghost b3 = self@;
        proof {
            lemma_observe_preserves_observed(b2, b2.slot(xi + 1, yi + 1));
            assert(b3 == b0.observe_right_neighbors(xi, yi));
        }
        res
    }

    /// Read the neighbors straight above and below, in order, and count
    /// their mines.
    #[verifier::rlimit(100)]
    fn observe_vertical(&mut self, x: u16, y: u16) -> (n: u8)
        requires
            old(self)@.dims_ok(),
            old(self)@.in_bounds(x as int, y as int),
        ensures
            final(self)@ == old(self)@.observe_vertical_neighbors(x as int, y as int),
            final(self)@.dims_ok(),
            final(self)@.width == old(self)@.width,
            final(self)@.height == old(self)@.height,
            final(self)@.cells.len() == old(self)@.cells.len(),
            forall|i: int|
                0 <= i < old(self)@.cells.len() && old(self)@.cells[i].observed
                    ==> #[trigger] final(self)@.cells[i] == old(self)@.cells[i],
            final(self)@.cursor_x == old(self)@.cursor_x,
            final(self)@.cursor_y == old(self)@.cursor_y,
            final(self)@.score == old(self)@.score,
            final(self)@.first_click == old(self)@.first_click,
            forall|i: int|
                0 <= i < old(self)@.cells.len() ==> (#[trigger] final(self)@.cells[i]).revealed
                    == old(self)@.cells[i].revealed && final(self)@.cells[i].flagged
                    == old(self)@.cells[i].flagged && (old(self)@.cells[i].observed
                    ==> final(self)@.cells[i].observed),
            y as int > 0 ==> final(self)@.cell(x as int, y as int - 1).observed,
            y as int + 1 < old(self)@.height ==> final(self)@.cell(x as int, y as int + 1).observed,
            n == final(self)@.vertical_mine_count(x as int, y as int),
            n <= 2,
    {
        let ghost xi: int = x as int;
        let ghost yi: int = y as int;
        let ghost b0 = self@;
        let mut res: u8 = 0;
        if y > 0 {
            if self.get(x, y - 1).mine {
                res = res + 1;
            }
        }
        let ghost b1 = self@;
        proof {
            lemma_observe_preserves_observed(b0, b0.slot(xi, yi - 1));
        }
        if y + 1 < self.height {
            if self.get(x, y + 1).mine {
                res = res + 1;
            }
        }
        let ghost b2 = self@;
        proof {
            lemma_observe_preserves_observed(b1, b1.slot(xi, yi + 1));
            assert(b2 == b0.observe_vertical_neighbors(xi, yi));
        }
        res
    }

    /// Count the mines adjacent to the coordinates, deciding the mine
    /// status of each neighbor that had not been observed yet, in the
    /// fixed neighbor order.
    #[verifier::rlimit(100)]
    pub fn val(&mut self, x: u16, y: u16) -> (v: u8)
        requires
            old(self)@.dims_ok(),
            old(self)@.in_bounds(x as int, y as int),
        ensures
            final(self)@.dims_ok(),
            final(self)@.width == old(self)@.width,
            final(self)@.height == old(self)@.height,
            final(self)@.cells.len() == old(self)@.cells.len(),
            final(self)@.cursor_x == old(self)@.cursor_x,
            final(self)@.cursor_y == old(self)@.cursor_y,
            final(self)@.score == old(self)@.score,
            final(self)@.first_click == old(self)@.first_click,
            forall|i: int|
                0 <= i < old(self)@.cells.len() && old(self)@.cells[i].observed
                    ==> #[trigger] final(self)@.cells[i] == old(self)@.cells[i],
            forall|i: int|
                0 <= i < old(self)@.cells.len() ==> (#[trigger] final(self)@.cells[i]).revealed
                    == old(self)@.cells[i].revealed && final(self)@.cells[i].flagged
                    == old(self)@.cells[i].flagged && (old(self)@.cells[i].observed
                    ==> final(self)@.cells[i].observed),
            final(self)@.neighbors_observed(x as int, y as int),
            v == final(self)@.adjacent_mine_count(x as int, y as int),
            v == 0 <==> final(self)@.no_adjacent_mine(x as int, y as int),
    {
        let ghost xi: int = x as int;
        let ghost yi: int = y as int;
        let ghost b0 = self@;
        let n1: u8 = self.observe_left(x, y);
        let ghost bl = self@;
        let n2: u8 = self.observe_right(x, y);
        let ghost br = self@;
        let n3: u8 = self.observe_vertical(x, y);
        let ghost bv = self@;
        proof {
            assert(bv.left_mine_count(xi, yi) == bl.left_mine_count(xi, yi));
            assert(bv.right_mine_count(xi, yi) == br.right_mine_count(xi, yi));
            assert(bv.neighbors_observed(xi, yi));
        }
        n1 + n2 + n3
    }

    /// Queue every not-yet-revealed neighbor of a freshly revealed
    /// zero-count cell on the flood-fill work list.
    #[verifier::rlimit(100)]
    fn push_neighbors(&mut self, x: u16, y: u16, stack: &mut Vec<(u16, u16)>)
        requires
            old(self)@.dims_ok(),
            old(self)@.in_bounds(x as int, y as int),
            old(self)@.neighbors_observed(x as int, y as int),
            old(self)@.no_adjacent_mine(x as int, y as int),
            old(self)@.stack_ok(old(stack)@),
        ensures
            final(self)@ == old(self)@,
            final(self)@.stack_ok(final(stack)@),
            forall|v: (u16, u16)| old(stack)@.contains(v) ==> final(stack)@.contains(v),
            final(self)@.neighbors_done(final(stack)@, x as int, y as int),
    {
        let ghost b = self@;
        if x > 0 {
            let c = self.get(x - 1, y);
            if !c.revealed && !c.mine {
                stack.push((x - 1, y));
            }
            proof {
                assert(self@ == b);
                assert(b.stack_ok(stack@));
                assert(b.cell_done(stack@, x as int - 1, y as int));
            }
        }
        if x > 0 && y > 0 {
            let c = self.get(x - 1, y - 1);
            if !c.revealed && !c.mine {
                stack.push((x - 1, y - 1));
            }
            proof {
                assert(self@ == b);
                assert(b.stack_ok(stack@));
                assert(b.cell_done(stack@, x as int - 1, y as int - 1));
            }
        }
        if x > 0 && y + 1 < self.height {
            let c = self.get(x - 1, y + 1);
            if !c.revealed && !c.mine {
                stack.push((x - 1, y + 1));
            }
            proof {
                assert(self@ == b);
                assert(b.stack_ok(stack@));
                assert(b.cell_done(stack@, x as int - 1, y as int + 1));
            }
        }
        if x + 1 < self.width {
            let c = self.get(x + 1, y);
            if !c.revealed && !c.mine {
                stack.push((x + 1, y));
            }
            proof {
                assert(self@ == b);
                assert(b.stack_ok(stack@));
                assert(b.cell_done(stack@, x as int + 1, y as int));
            }
        }
        if x + 1 < self.width && y > 0 {
            let c = self.get(x + 1, y - 1);
            if !c.revealed && !c.mine {
                stack.push((x + 1, y - 1));
            }
            proof {
                assert(self@ == b);
                assert(b.stack_ok(stack@));
                assert(b.cell_done(stack@, x as int + 1, y as int - 1));
            }
        }
        if x + 1 < self.width && y + 1 < self.height {
            let c = self.get(x + 1, y + 1);
            if !c.revealed && !c.mine {
                stack.push((x + 1, y + 1));
            }
            proof {
                assert(self@ == b);
                assert(b.stack_ok(stack@));
                assert(b.cell_done(stack@, x as int + 1, y as int + 1));
            }
        }
        if y > 0 {
            let c = self.get(x, y - 1);
            if !c.revealed && !c.mine {
                stack.push((x, y - 1));
            }
            proof {
                assert(self@ == b);
                assert(b.stack_ok(stack@));
                assert(b.cell_done(stack@, x as int, y as int - 1));
            }
        }
        if y + 1 < self.height {
            let c = self.get(x, y + 1);
            if !c.revealed && !c.mine {
                stack.push((x, y + 1));
            }
            proof {
                assert(self@ == b);
                assert(b.stack_ok(stack@));
                assert(b.cell_done(stack@, x as int, y as int + 1));
            }
        }
    }

    /// Reveal the unrevealed cell just taken off the flood-fill work
    /// list and, when it has no adjacent mine, queue its unrevealed
    /// neighbors.
    #[verifier::rlimit(100)]
    fn flood_reveal(&mut self, x: u16, y: u16, stack: &mut Vec<(u16, u16)>)
        requires
            old(self)@.dims_ok(),
            old(self)@.in_bounds(x as int, y as int),
            old(self)@.cell(x as int, y as int).observed,
            !old(self)@.cell(x as int, y as int).mine,
            !old(self)@.cell(x as int, y as int).revealed,
            old(self)@.stack_ok(old(stack)@),
            old(self)@.pending_closure(old(stack)@.push((x, y))),
        ensures
            final(self)@.dims_ok(),
            final(self)@.width == old(self)@.width,
            final(self)@.height == old(self)@.height,
            final(self)@.cursor_x == old(self)@.cursor_x,
            final(self)@.cursor_y == old(self)@.cursor_y,
            final(self)@.score == old(self)@.score,
            final(self)@.first_click == old(self)@.first_click,
            final(self)@.cells.len() == old(self)@.cells.len(),
            final(self)@.stack_ok(final(stack)@),
            final(self)@.pending_closure(final(stack)@),
            forall|i: int|
                0 <= i < old(self)@.cells.len() ==> {
                    &&& (#[trigger] final(self)@.cells[i]).flagged == old(self)@.cells[i].flagged
                    &&& (old(self)@.cells[i].revealed ==> final(self)@.cells[i].revealed)
                    &&& (old(self)@.cells[i].observed ==> final(self)@.cells[i].observed
                        && final(self)@.cells[i].mine == old(self)@.cells[i].mine)
                },
            final(self)@.cell(x as int, y as int).revealed,
            forall|v: (u16, u16)| old(stack)@.contains(v) ==> final(stack)@.contains(v),
            count_unrevealed(final(self)@.cells) < count_unrevealed(old(self)@.cells),
    {
        let ghost xi: int = x as int;
        let ghost yi: int = y as int;
        let ghost b0 = self@;
        let ghost s_in = stack@;
        let ghost s_top = s_in.push((x, y));
        let p: usize = self.pos(x, y);
        let v: u8 = self.val(x, y);
        let ghost b1 = self@;
        proof {
            lemma_pending_preserved_by_observation(b0, b1, s_top);
            lemma_count_unrevealed_same(b1.cells, b0.cells);
        }
        self.grid[p].revealed = true;
        let ghost b2 = self@;
        proof {
            lemma_count_unrevealed_update(b1.cells, p as int, b2.cells[p as int]);
            assert(b2.cells =~= b1.cells.update(
                p as int,
                (Cell {
                    mine: b1.cell(xi, yi).mine,
                    revealed: true,
                    observed: true,
                    flagged: b1.cell(xi, yi).flagged,
                }),
            ));
            assert forall|k: int| 0 <= k < s_in.len() implies {
                &&& b2.in_bounds((#[trigger] s_in[k]).0 as int, s_in[k].1 as int)
                &&& b2.cell(s_in[k].0 as int, s_in[k].1 as int).observed
                &&& !b2.cell(s_in[k].0 as int, s_in[k].1 as int).mine
            } by {
                assert(s_top[k] == s_in[k]);
                assert(b1.in_bounds(s_in[k].0 as int, s_in[k].1 as int));
                assert(b1.cell(s_in[k].0 as int, s_in[k].1 as int).observed);
            }
        }
        if v == 0 {
            self.push_neighbors(x, y, stack);
        }
        proof {
            lemma_flood_reassemble(b1, b2, s_in, stack@, xi, yi, v == 0);
        }
    }

    /// Process one cell taken off the flood-fill work list: skip it when
    /// it is already revealed (the work list never revisits a cell),
    /// otherwise reveal it and, when it has no adjacent mine, queue its
    /// unrevealed neighbors.
    #[verifier::rlimit(100)]
    fn flood_step(&mut self, x: u16, y: u16, stack: &mut Vec<(u16, u16)>)
        requires
            old(self)@.dims_ok(),
            old(self)@.in_bounds(x as int, y as int),
            old(self)@.cell(x as int, y as int).observed,
            !old(self)@.cell(x as int, y as int).mine,
            old(self)@.stack_ok(old(stack)@),
            old(self)@.pending_closure(old(stack)@.push((x, y))),
        ensures
            final(self)@.dims_ok(),
            final(self)@.width == old(self)@.width,
            final(self)@.height == old(self)@.height,
            final(self)@.cursor_x == old(self)@.cursor_x,
            final(self)@.cursor_y == old(self)@.cursor_y,
            final(self)@.score == old(self)@.score,
            final(self)@.first_click == old(self)@.first_click,
            final(self)@.cells.len() == old(self)@.cells.len(),
            final(self)@.stack_ok(final(stack)@),
            final(self)@.pending_closure(final(stack)@),
            forall|i: int|
                0 <= i < old(self)@.cells.len() ==> {
                    &&& (#[trigger] final(self)@.cells[i]).flagged == old(self)@.cells[i].flagged
                    &&& (old(self)@.cells[i].revealed ==> final(self)@.cells[i].revealed)
                    &&& (old(self)@.cells[i].observed ==> final(self)@.cells[i].observed
                        && final(self)@.cells[i].mine == old(self)@.cells[i].mine)
                },
            final(self)@.cell(x as int, y as int).revealed,
            forall|v: (u16, u16)| old(stack)@.contains(v) ==> final(stack)@.contains(v),
            (final(self)@ == old(self)@ && final(stack)@ == old(stack)@)
                || count_unrevealed(final(self)@.cells) < count_unrevealed(old(self)@.cells),
    {
        let ghost b0 = self@;
        let ghost s_in = stack@;
        let p: usize = self.pos(x, y);
        if self.grid[p].revealed {
            proof {
                lemma_pending_after_pop(b0, s_in, x as int, y as int);
            }
            return ;
        }
        self.flood_reveal(x, y, stack);
    }

    /// Reveal the cell at the coordinates. A flagged cell is protected
    /// from the reveal action: nothing happens. Otherwise, when the cell
    /// has no adjacent mine its whole zero-count-connected region is
    /// revealed together with the ring of numbered cells bordering it:
    /// afterwards (by the closure clause of `wf`) every revealed
    /// zero-count cell has all its neighbors revealed. A cell is never
    /// processed twice: the `revealed` flag acts as the visited set, and
    /// already revealed cells are left untouched.
    #[verifier::rlimit(100)]
    pub fn reveal_cell(&mut self, x: u16, y: u16)
        requires
            old(self)@.wf(),
            old(self)@.in_bounds(x as int, y as int),
            old(self)@.cell(x as int, y as int).observed,
            !old(self)@.cell(x as int, y as int).mine,
            !old(self)@.first_click,
        ensures
            final(self)@.wf(),
            final(self)@.width == old(self)@.width,
            final(self)@.height == old(self)@.height,
            final(self)@.cursor_x == old(self)@.cursor_x,
            final(self)@.cursor_y == old(self)@.cursor_y,
            final(self)@.score == old(self)@.score,
            final(self)@.first_click == old(self)@.first_click,
            final(self)@.cells.len() == old(self)@.cells.len(),
            forall|i: int|
                0 <= i < old(self)@.cells.len() ==> {
                    &&& (#[trigger] final(self)@.cells[i]).flagged == old(self)@.cells[i].flagged
                    &&& (old(self)@.cells[i].revealed ==> final(self)@.cells[i].revealed)
                    &&& (old(self)@.cells[i].observed ==> final(self)@.cells[i].observed
                        && final(self)@.cells[i].mine == old(self)@.cells[i].mine)
                },
            old(self)@.cell(x as int, y as int).flagged ==> final(self)@ == old(self)@,
            !old(self)@.cell(x as int, y as int).flagged ==> final(self)@.cell(
                x as int,
                y as int,
            ).revealed,
    {
        let guard_p: usize = self.pos(x, y);
        if self.grid[guard_p].flagged {
            return ;
        }
        let ghost b_in = self@;
        let mut stack: Vec<(u16, u16)> = Vec::new();
        stack.push((x, y));
        proof {
            lemma_closure_implies_pending(b_in, stack@);
        }
        while stack.len() != 0
            invariant
                self@.dims_ok(),
                self@.width == b_in.width,
                self@.height == b_in.height,
                self@.cursor_x == b_in.cursor_x,
                self@.cursor_y == b_in.cursor_y,
                self@.score == b_in.score,
                self@.first_click == b_in.first_click,
                !self@.first_click,
                self@.cells.len() == b_in.cells.len(),
                self@.stack_ok(stack@),
                self@.pending_closure(stack@),
                forall|i: int|
                    0 <= i < b_in.cells.len() ==> {
                        &&& (#[trigger] self@.cells[i]).flagged == b_in.cells[i].flagged
                        &&& (b_in.cells[i].revealed ==> self@.cells[i].revealed)
                        &&& (b_in.cells[i].observed ==> self@.cells[i].observed
                            && self@.cells[i].mine == b_in.cells[i].mine)
                    },
                self@.cell(x as int, y as int).revealed || stack@.contains((x, y)),
                b_in == old(self)@,
                b_in.wf(),
                b_in.in_bounds(x as int, y as int),
            decreases count_unrevealed(self@.cells), stack@.len(),
        {
            let ghost s_pre = stack@;
            let top: (u16, u16) = match stack.pop() {
                Some(t) => t,
                None => {
                    proof {
                        assert(false);
                    }
                    (0, 0)
                },
            };
            proof {
                assert(s_pre[s_pre.len() - 1] == top);
                assert(stack@ =~= s_pre.drop_last());
                assert(s_pre =~= stack@.push(top));
            }
            self.flood_step(top.0, top.1, &mut stack);
        }
        proof {
            lemma_pending_empty_is_closure(self@, stack@);
            reveal(BoardView::revealed_closure);
        }
    }

    /// Read every cell of the board once, in slot order, deciding any
    /// mine status still undecided; used to show the whole minefield
    /// when the game is lost. No cell's revealed or flagged mark changes.
    #[verifier::rlimit(100)]
    pub fn reveal_all(&mut self)
        requires
            old(self)@.wf(),
        ensures
            final(self)@.wf(),
            final(self)@.width == old(self)@.width,
            final(self)@.height == old(self)@.height,
            final(self)@.cursor_x == old(self)@.cursor_x,
            final(self)@.cursor_y == old(self)@.cursor_y,
            final(self)@.score == old(self)@.score,
            final(self)@.first_click == old(self)@.first_click,
            final(self)@.cells.len() == old(self)@.cells.len(),
            forall|i: int|
                0 <= i < final(self)@.cells.len() ==> (#[trigger] final(self)@.cells[i]).observed,
            forall|i: int|
                0 <= i < old(self)@.cells.len() ==> {
                    &&& (#[trigger] final(self)@.cells[i]).flagged == old(self)@.cells[i].flagged
                    &&& final(self)@.cells[i].revealed == old(self)@.cells[i].revealed
                    &&& (old(self)@.cells[i].observed ==> final(self)@.cells[i]
                        == old(self)@.cells[i])
                },
    {
        let ghost b_in = self@;
        let n: usize = self.grid.len();
        let mut c: usize = 0;
        while c < n
            invariant
                c <= n,
                n == b_in.cells.len(),
                self@.dims_ok(),
                self@.cells.len() == n,
                self@.width == b_in.width,
                self@.height == b_in.height,
                self@.cursor_x == b_in.cursor_x,
                self@.cursor_y == b_in.cursor_y,
                self@.score == b_in.score,
                self@.first_click == b_in.first_click,
                forall|i: int| 0 <= i < c ==> (#[trigger] self@.cells[i]).observed,
                forall|i: int|
                    0 <= i < n ==> {
                        &&& (#[trigger] self@.cells[i]).flagged == b_in.cells[i].flagged
                        &&& self@.cells[i].revealed == b_in.cells[i].revealed
                        &&& (b_in.cells[i].observed ==> self@.cells[i] == b_in.cells[i])
                    },
                b_in.dims_ok(),
            decreases n - c,
        {
            let ghost b_prev = self@;
            self.read_cell(c);
            proof {
                lemma_observe_preserves_observed(b_prev, c as int);
                assert(self@.cells[c as int].observed);
            }
            c = c + 1;
        }
        proof {
            lemma_closure_preserved_by_observation(b_in, self@);
        }
    }

    /// Read one cell and force its mine flag off; one step of the
    /// first-click exemption.
    fn clear_one(&mut self, x: u16, y: u16)
        requires
            old(self)@.dims_ok(),
            old(self)@.in_bounds(x as int, y as int),
        ensures
            final(self)@ == old(self)@.clear_step(x as int, y as int),
            final(self)@.dims_ok(),
    {
        let p: usize = self.pos(x, y);
        self.read_cell(p);
        self.grid[p].mine = false;
        proof {
            assert(self@.cells =~= old(self)@.clear_step(x as int, y as int).cells);
            assert(self@ =~= old(self)@.clear_step(x as int, y as int));
        }
    }

    /// Clear one group of cells for the first-click exemption: read
    /// each (deciding its mine status if needed) and force its mine flag
    /// off.
    #[verifier::rlimit(100)]
    fn clear_left(&mut self, x: u16, y: u16)
        requires
            old(self)@.dims_ok(),
            old(self)@.in_bounds(x as int, y as int),
        ensures
            final(self)@.dims_ok(),
            final(self)@.width == old(self)@.width,
            final(self)@.height == old(self)@.height,
            final(self)@.cursor_x == old(self)@.cursor_x,
            final(self)@.cursor_y == old(self)@.cursor_y,
            final(self)@.score == old(self)@.score,
            final(self)@.first_click == old(self)@.first_click,
            final(self)@.cells.len() == old(self)@.cells.len(),
            forall|i: int|
                0 <= i < old(self)@.cells.len() ==> {
                    &&& (#[trigger] final(self)@.cells[i]).revealed == old(self)@.cells[i].revealed
                    &&& final(self)@.cells[i].flagged == old(self)@.cells[i].flagged
                    &&& (old(self)@.cells[i].observed ==> final(self)@.cells[i].observed)
                    &&& (old(self)@.cells[i].observed ==> final(self)@.cells[i].mine
                        == old(self)@.cells[i].mine || !final(self)@.cells[i].mine)
                },
            x as int > 0 ==> !final(self)@.cell(x as int - 1, y as int).mine
                && final(self)@.cell(x as int - 1, y as int).observed,
            x as int > 0 && y as int > 0 ==> !final(self)@.cell(x as int - 1, y as int - 1).mine
                && final(self)@.cell(x as int - 1, y as int - 1).observed,
            x as int > 0 && y as int + 1 < old(self)@.height ==> !final(self)@.cell(
                x as int - 1,
                y as int + 1,
            ).mine && final(self)@.cell(x as int - 1, y as int + 1).observed,
    {
        if x > 0 {
            let ghost bp = self@;
            self.clear_one(x - 1, y);
            proof {
                lemma_clear_one_frame(bp, x - 1 as int, y as int);
            }
        }
        if x > 0 && y > 0 {
            let ghost bp = self@;
            self.clear_one(x - 1, y - 1);
            proof {
                lemma_clear_one_frame(bp, x - 1 as int, y - 1 as int);
            }
        }
        if x > 0 && y + 1 < self.height {
            let ghost bp = self@;
            self.clear_one(x - 1, y + 1);
            proof {
                lemma_clear_one_frame(bp, x - 1 as int, y + 1 as int);
            }
        }
    }

    /// Clear one group of cells for the first-click exemption: read
    /// each (deciding its mine status if needed) and force its mine flag
    /// off.
    #[verifier::rlimit(100)]
    fn clear_right(&mut self, x: u16, y: u16)
        requires
            old(self)@.dims_ok(),
            old(self)@.in_bounds(x as int, y as int),
        ensures
            final(self)@.dims_ok(),
            final(self)@.width == old(self)@.width,
            final(self)@.height == old(self)@.height,
            final(self)@.cursor_x == old(self)@.cursor_x,
            final(self)@.cursor_y == old(self)@.cursor_y,
            final(self)@.score == old(self)@.score,
            final(self)@.first_click == old(self)@.first_click,
            final(self)@.cells.len() == old(self)@.cells.len(),
            forall|i: int|
                0 <= i < old(self)@.cells.len() ==> {
                    &&& (#[trigger] final(self)@.cells[i]).revealed == old(self)@.cells[i].revealed
                    &&& final(self)@.cells[i].flagged == old(self)@.cells[i].flagged
                    &&& (old(self)@.cells[i].observed ==> final(self)@.cells[i].observed)
                    &&& (old(self)@.cells[i].observed ==> final(self)@.cells[i].mine
                        == old(self)@.cells[i].mine || !final(self)@.cells[i].mine)
                },
            x as int + 1 < old(self)@.width ==> !final(self)@.cell(x as int + 1, y as int).mine
                && final(self)@.cell(x as int + 1, y as int).observed,
            x as int + 1 < old(self)@.width && y as int > 0 ==> !final(self)@.cell(
                x as int + 1,
                y as int - 1,
            ).mine && final(self)@.cell(x as int + 1, y as int - 1).observed,
            x as int + 1 < old(self)@.width && y as int + 1 < old(self)@.height ==> !final(self)@.cell(
                x as int + 1,
                y as int + 1,
            ).mine && final(self)@.cell(x as int + 1, y as int + 1).observed,
    {
        if x + 1 < self.width {
            let ghost bp = self@;
            self.clear_one(x + 1, y);
            proof {
                lemma_clear_one_frame(bp, x + 1 as int, y as int);
            }
        }
        if x + 1 < self.width && y > 0 {
            let ghost bp = self@;
            self.clear_one(x + 1, y - 1);
            proof {
                lemma_clear_one_frame(bp, x + 1 as int, y - 1 as int);
            }
        }
        if x + 1 < self.width && y + 1 < self.height {
            let ghost bp = self@;
            self.clear_one(x + 1, y + 1);
            proof {
                lemma_clear_one_frame(bp, x + 1 as int, y + 1 as int);
            }
        }
    }

    /// Clear one group of cells for the first-click exemption: read
    /// each (deciding its mine status if needed) and force its mine flag
    /// off.
    #[verifier::rlimit(100)]
    fn clear_vertical_center(&mut self, x: u16, y: u16)
        requires
            old(self)@.dims_ok(),
            old(self)@.in_bounds(x as int, y as int),
        ensures
            final(self)@.dims_ok(),
            final(self)@.width == old(self)@.width,
            final(self)@.height == old(self)@.height,
            final(self)@.cursor_x == old(self)@.cursor_x,
            final(self)@.cursor_y == old(self)@.cursor_y,
            final(self)@.score == old(self)@.score,
            final(self)@.first_click == old(self)@.first_click,
            final(self)@.cells.len() == old(self)@.cells.len(),
            forall|i: int|
                0 <= i < old(self)@.cells.len() ==> {
                    &&& (#[trigger] final(self)@.cells[i]).revealed == old(self)@.cells[i].revealed
                    &&& final(self)@.cells[i].flagged == old(self)@.cells[i].flagged
                    &&& (old(self)@.cells[i].observed ==> final(self)@.cells[i].observed)
                    &&& (old(self)@.cells[i].observed ==> final(self)@.cells[i].mine
                        == old(self)@.cells[i].mine || !final(self)@.cells[i].mine)
                },
            y as int > 0 ==> !final(self)@.cell(x as int, y as int - 1).mine
                && final(self)@.cell(x as int, y as int - 1).observed,
            y as int + 1 < old(self)@.height ==> !final(self)@.cell(x as int, y as int + 1).mine
                && final(self)@.cell(x as int, y as int + 1).observed,
            !final(self)@.cell(x as int, y as int).mine,
            final(self)@.cell(x as int, y as int).observed,
    {
        if y > 0 {
            let ghost bp = self@;
            self.clear_one(x, y - 1);
            proof {
                lemma_clear_one_frame(bp, x as int, y - 1 as int);
            }
        }
        if y + 1 < self.height {
            let ghost bp = self@;
            self.clear_one(x, y + 1);
            proof {
                lemma_clear_one_frame(bp, x as int, y + 1 as int);
            }
        }
        let ghost bp = self@;
        self.clear_one(x, y);
        proof {
            lemma_clear_one_frame(bp, x as int, y as int);
        }
    }

    /// Perform the whole first-click exemption at the coordinates: the
    /// cell and all its neighbors are read and stripped of mines, and
    /// the first click is consumed.
    #[verifier::rlimit(100)]
    pub fn clear_first(&mut self, x: u16, y: u16)
        requires
            old(self)@.wf(),
            old(self)@.first_click,
            old(self)@.in_bounds(x as int, y as int),
        ensures
            final(self)@.wf(),
            !final(self)@.first_click,
            final(self)@.width == old(self)@.width,
            final(self)@.height == old(self)@.height,
            final(self)@.cursor_x == old(self)@.cursor_x,
            final(self)@.cursor_y == old(self)@.cursor_y,
            final(self)@.score == old(self)@.score,
            final(self)@.cells.len() == old(self)@.cells.len(),
            forall|i: int|
                0 <= i < old(self)@.cells.len() ==> {
                    &&& (#[trigger] final(self)@.cells[i]).revealed == old(self)@.cells[i].revealed
                    &&& final(self)@.cells[i].flagged == old(self)@.cells[i].flagged
                },
            !final(self)@.cell(x as int, y as int).mine,
            final(self)@.cell(x as int, y as int).observed,
            final(self)@.no_adjacent_mine(x as int, y as int),
            final(self)@.neighbors_observed(x as int, y as int),
    {
        let ghost b0 = self@;
        self.clear_left(x, y);
        let ghost bl = self@;
        self.clear_right(x, y);
        let ghost br = self@;
        self.clear_vertical_center(x, y);
        let ghost bv = self@;
        self.first_click = false;
        proof {
            reveal(BoardView::revealed_closure);
            assert(forall|i: int|
                0 <= i < self@.cells.len() ==> !(#[trigger] self@.cells[i]).revealed);
        }
    }

    /// The board height.    /// The board height.
    pub fn height(&self) -> (h: u16)
        ensures
            h == self@.height,
    {
        self.height
    }

    /// The board width.
    pub fn width(&self) -> (w: u16)
        ensures
            w == self@.width,
    {
        self.width
    }

    /// The cursor position.
    pub fn cursor(&self) -> (c: (u16, u16))
        ensures
            c.0 == self@.cursor_x,
            c.1 == self@.cursor_y,
    {
        (self.x, self.y)
    }

    /// The current score: a count of reveal actions on unrevealed cells.
    pub fn score(&self) -> (s: u16)
        ensures
            s == self@.score,
    {
        self.score
    }

    /// The row above, if any.
    pub fn up(&self, y: u16) -> (r: Option<u16>)
        ensures
            r == if y == 0 { Option::<u16>::None } else { Option::Some((y - 1) as u16) },
    {
        if y == 0 {
            None
        } else {
            Some(y - 1)
        }
    }

    /// The row below, if any.
    pub fn down(&self, y: u16) -> (r: Option<u16>)
        requires
            y < self@.height,
        ensures
            r == if y + 1 == self@.height { Option::<u16>::None } else {
                Option::Some((y + 1) as u16)
            },
    {
        if y + 1 == self.height {
            None
        } else {
            Some(y + 1)
        }
    }

    /// The column to the left, if any.
    pub fn left(&self, x: u16) -> (r: Option<u16>)
        ensures
            r == if x == 0 { Option::<u16>::None } else { Option::Some((x - 1) as u16) },
    {
        if x == 0 {
            None
        } else {
            Some(x - 1)
        }
    }

    /// The column to the right, if any.
    pub fn right(&self, x: u16) -> (r: Option<u16>)
        requires
            x < self@.width,
        ensures
            r == if x + 1 == self@.width { Option::<u16>::None } else {
                Option::Some((x + 1) as u16)
            },
    {
        if x + 1 == self.width {
            None
        } else {
            Some(x + 1)
        }
    }

    /// The row above, clamped at the edge.
    pub fn move_up(&self, y: u16) -> (r: u16)
        ensures
            r == if y == 0 { 0int } else { y - 1 },
    {
        if y == 0 {
            0
        } else {
            y - 1
        }
    }

    /// The row below, clamped at the edge.
    pub fn move_down(&self, y: u16) -> (r: u16)
        requires
            y < self@.height,
        ensures
            r == if y + 1 == self@.height { y as int } else { y + 1 },
    {
        if y + 1 == self.height {
            y
        } else {
            y + 1
        }
    }

    /// The column to the left, clamped at the edge.
    pub fn move_left(&self, x: u16) -> (r: u16)
        ensures
            r == if x == 0 { 0int } else { x - 1 },
    {
        if x == 0 {
            0
        } else {
            x - 1
        }
    }

    /// The column to the right, clamped at the edge.
    pub fn move_right(&self, x: u16) -> (r: u16)
        requires
            x < self@.width,
        ensures
            r == if x + 1 == self@.width { x as int } else { x + 1 },
    {
        if x + 1 == self.width {
            x
        } else {
            x + 1
        }
    }
}

} // verus!
