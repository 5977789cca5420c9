//! The board as a mathematical value.

use vstd::prelude::*;
use crate::mines::field::FieldView;
use crate::mines::neighbour_iter::neighbour_at;
use crate::mines::position::Position;

verus! {

/// The number of covered cells without a mine among `fields`.
pub open spec fn hidden_empty(fields: Seq<FieldView>) -> nat
    decreases fields.len(),
{
    if fields.len() == 0 {
        0
    } else {
        hidden_empty(fields.drop_last()) + if fields.last().hidden && !fields.last().mine {
            1nat
        } else {
            0nat
        }
    }
}

/// One for a covered cell without a mine, zero for any other.
pub open spec fn counts_as_hidden_empty(field: FieldView) -> nat {
    if field.hidden && !field.mine {
        1
    } else {
        0
    }
}

/// Replacing one cell changes the count of covered empty cells by what the
/// old cell and the new cell count for.
pub proof fn lemma_hidden_empty_update(fields: Seq<FieldView>, index: int, field: FieldView)
    requires
        0 <= index < fields.len(),
    ensures
        hidden_empty(fields.update(index, field)) + counts_as_hidden_empty(fields[index])
            == hidden_empty(fields) + counts_as_hidden_empty(field),
    decreases fields.len(),
{
    let updated = fields.update(index, field);
    if index == fields.len() - 1 {
        assert(updated.drop_last() =~= fields.drop_last());
    } else {
        lemma_hidden_empty_update(fields.drop_last(), index, field);
        assert(updated.drop_last() =~= fields.drop_last().update(index, field));
    }
}

/// The count of cells that are left to open after `by` more cells have been
/// opened: it goes down by one for each cell, and from zero it goes round to
/// the greatest number that the machine counts to.
pub open spec fn count_down(remaining: nat, by: int) -> nat {
    ((remaining - by) % (usize::MAX + 1)) as nat
}

/// Opening no cell leaves the count as it is.
pub proof fn lemma_count_down_none(remaining: nat)
    requires
        remaining <= usize::MAX,
    ensures
        count_down(remaining, 0) == remaining,
{
    vstd::arithmetic::div_mod::lemma_small_mod(remaining, (usize::MAX + 1) as nat);
}

/// Opening no more cells than are left to open takes that many off the
/// count.
pub proof fn lemma_count_down_exact(remaining: nat, by: int)
    requires
        remaining <= usize::MAX,
        0 <= by <= remaining,
    ensures
        count_down(remaining, by) == remaining - by,
{
    vstd::arithmetic::div_mod::lemma_small_mod((remaining - by) as nat, (usize::MAX + 1) as nat);
}

/// Opening one cell takes one off the count, and from zero leads to the
/// greatest number.
pub proof fn lemma_count_down_one(remaining: nat)
    requires
        remaining <= usize::MAX,
    ensures
        count_down(remaining, 1) == if remaining == 0 {
            usize::MAX as nat
        } else {
            (remaining - 1) as nat
        },
        count_down(remaining, 1) <= usize::MAX,
{
    if remaining == 0 {
        vstd::arithmetic::div_mod::lemma_fundamental_div_mod_converse(
            -1,
            usize::MAX + 1,
            -1,
            usize::MAX as int,
        );
    } else {
        lemma_count_down_exact(remaining, 1);
    }
}

/// Opening cells in two goes counts as opening them in one.
pub proof fn lemma_count_down_twice(remaining: nat, first: int, second: int)
    ensures
        count_down(count_down(remaining, first), second) == count_down(remaining, first + second),
        count_down(remaining, first) <= usize::MAX,
{
    let m = usize::MAX + 1;
    let x = remaining - first;
    vstd::arithmetic::div_mod::lemma_sub_mod_noop(x, second, m);
    vstd::arithmetic::div_mod::lemma_sub_mod_noop_right(x % m, second, m);
    vstd::arithmetic::div_mod::lemma_mod_bound(x, m);
    vstd::arithmetic::div_mod::lemma_mod_bound(x - second, m);
}

/// The game as a mathematical value.
pub struct Board {
    pub width: int,
    pub height: int,
    /// The cells row by row: the cell at `(x, y)` stands at `y * width + x`.
    pub fields: Seq<FieldView>,
    pub cursor: Position,
    /// Whether the mines have been laid.
    pub initialized: bool,
    /// The number of mines that the first click tries to lay.
    pub mine_count: nat,
    /// The count of cells that are left to open: the cells of the board
    /// before the first click, the cells less the mines to lay after it, and
    /// one less for each cell that a click uncovers.
    pub remaining: nat,
}

impl Board {
    /// Whether `pos` lies on the board.
    pub open spec fn on_board(self, pos: Position) -> bool {
        0 <= pos.x < self.width && 0 <= pos.y < self.height
    }

    /// Whether the cell at `(x, y)` lies on the board.
    pub open spec fn holds(self, cell: (int, int)) -> bool {
        0 <= cell.0 < self.width && 0 <= cell.1 < self.height
    }

    /// The place of the cell at `pos` in the row-by-row order.
    pub open spec fn index_of(self, pos: Position) -> int {
        pos.y * self.width + pos.x
    }

    /// The cell at `pos`.
    pub open spec fn at(self, pos: Position) -> FieldView
        recommends
            self.on_board(pos),
    {
        self.fields[self.index_of(pos)]
    }

    /// The cell at `(x, y)`.
    pub open spec fn cell(self, cell: (int, int)) -> FieldView
        recommends
            self.holds(cell),
    {
        self.fields[cell.1 * self.width + cell.0]
    }

    /// Whether the `k`-th neighbour of `pos` lies on the board and holds a
    /// mine.
    pub open spec fn mine_at_neighbour(self, pos: Position, k: nat) -> bool {
        self.holds(neighbour_at(pos, k)) && self.cell(neighbour_at(pos, k)).mine
    }

    /// The number of mines among the first `k` neighbours of `pos`.
    pub open spec fn mines_among(self, pos: Position, k: nat) -> nat
        decreases k,
    {
        if k == 0 {
            0
        } else {
            self.mines_among(pos, (k - 1) as nat) + if self.mine_at_neighbour(
                pos,
                (k - 1) as nat,
            ) {
                1nat
            } else {
                0nat
            }
        }
    }

    /// The number of mines on the eight cells around `pos`.
    pub open spec fn mines_around(self, pos: Position) -> nat {
        self.mines_among(pos, 8)
    }

    /// The shape of a board: its cells fill the rectangle, and the cursor lies
    /// on the board where the board has cells.
    pub open spec fn shaped(self) -> bool {
        &&& 0 <= self.width <= i32::MAX
        &&& 0 <= self.height <= i32::MAX
        &&& self.width * self.height <= i32::MAX
        &&& self.fields.len() == self.width * self.height
        &&& 0 <= self.cursor.x < i32::MAX
        &&& 0 <= self.cursor.y < i32::MAX
        &&& self.width > 0 && self.height > 0 ==> self.on_board(self.cursor)
        &&& self.remaining <= usize::MAX
        &&& self.mine_count == 20 * (self.width * self.height) / 100
    }

    /// Every cell without a mine records the number of mines around it.
    pub open spec fn counted(self) -> bool {
        forall|pos: Position|
            self.on_board(pos) && !(#[trigger] self.at(pos)).mine ==> self.at(pos).neighbours
                == self.mines_around(pos)
    }

    /// What holds of a game between any two moves: it has the shape of a
    /// board, and once the mines are laid the numbers are right.
    pub open spec fn wf(self) -> bool {
        &&& self.shaped()
        &&& self.initialized ==> self.counted()
    }

    /// The board with `field` in place of the cell at `pos`.
    pub open spec fn with_cell(self, pos: Position, field: FieldView) -> Board
        recommends
            self.on_board(pos),
    {
        Board { fields: self.fields.update(self.index_of(pos), field), ..self }
    }

    /// The cell at `pos`, uncovered.
    pub open spec fn opened(self, pos: Position) -> FieldView {
        FieldView { hidden: false, ..self.at(pos) }
    }

    /// The board after the cell at `pos` has been opened: the cell is
    /// uncovered and one cell less is left to open.
    pub open spec fn opened_at(self, pos: Position) -> Board
        recommends
            self.on_board(pos),
    {
        Board { remaining: count_down(self.remaining, 1), ..self.with_cell(pos, self.opened(pos)) }
    }

    /// The board after a covered, unflagged mine has been put at `pos`; a
    /// position off the board changes nothing.
    pub open spec fn with_mine(self, pos: Position) -> Board {
        if self.on_board(pos) {
            self.with_cell(pos, FieldView::mine())
        } else {
            self
        }
    }

    /// The board after mines have been put at `positions`, one after the
    /// other. A position may occur more than once.
    pub open spec fn mined(self, positions: Seq<Position>) -> Board
        decreases positions.len(),
    {
        if positions.len() == 0 {
            self
        } else {
            self.mined(positions.drop_last()).with_mine(positions.last())
        }
    }

    /// Whether `positions` are `count` positions of the board.
    pub open spec fn draws(self, count: nat, positions: Seq<Position>) -> bool {
        &&& positions.len() == count
        &&& forall|i: int| 0 <= i < positions.len() ==> self.on_board(#[trigger] positions[i])
    }

    /// Whether the cell that stands at `index` is one of `positions`.
    pub open spec fn drawn(self, positions: Seq<Position>, index: int) -> bool {
        exists|j: int|
            0 <= j < positions.len() && self.on_board(#[trigger] positions[j]) && self.index_of(
                positions[j],
            ) == index
    }

    /// Whether `after` is this board with `count` mines put at positions of
    /// the board, whichever they are.
    pub open spec fn mined_somewhere(self, count: nat, after: Board) -> bool {
        exists|positions: Seq<Position>|
            self.draws(count, positions) && after == #[trigger] self.mined(positions)
    }

    /// The board with every cell that holds no mine recording the number of
    /// mines around it.
    pub open spec fn numbered(self) -> Board {
        Board {
            fields: Seq::new(
                self.fields.len(),
                |i: int|
                    if self.fields[i].mine {
                        self.fields[i]
                    } else {
                        FieldView {
                            neighbours: self.mines_around(self.position_of(i)) as u8,
                            ..self.fields[i]
                        }
                    },
            ),
            ..self
        }
    }

    /// The game after its first click has laid the mines at `positions`:
    /// the game has begun, the mines lie where they were drawn, the cells of
    /// the board less the mines to lay are left to open, and the numbers are
    /// worked out.
    pub open spec fn laid(self, positions: Seq<Position>) -> Board {
        (Board {
            remaining: (self.width * self.height - self.mine_count) as nat,
            ..(Board { initialized: true, ..self }).mined(positions)
        }).numbered()
    }

    /// The board with every cell uncovered. The count of cells that are left
    /// to open stays as it is.
    pub open spec fn all_open(self) -> Board {
        Board {
            fields: Seq::new(
                self.fields.len(),
                |i: int| FieldView { hidden: false, ..self.fields[i] },
            ),
            ..self
        }
    }

    /// The position of the cell that stands at `index`.
    pub open spec fn position_of(self, index: int) -> Position {
        Position { x: (index % self.width) as i32, y: (index / self.width) as i32 }
    }

    /// The game before the first move.
    pub open spec fn untouched(width: int, height: int) -> Board {
        Board {
            width,
            height,
            fields: Seq::new((width * height) as nat, |i: int| FieldView::empty()),
            cursor: Position { x: (width / 2) as i32, y: (height / 2) as i32 },
            initialized: false,
            mine_count: (20 * (width * height) / 100) as nat,
            remaining: (width * height) as nat,
        }
    }

    /// A cell on the board has its place among the cells.
    pub proof fn lemma_cell_index(self, cell: (int, int))
        requires
            self.shaped(),
            self.holds(cell),
        ensures
            0 <= cell.1 * self.width + cell.0 < self.fields.len(),
    {
        let w = self.width;
        let h = self.height;
        let y = cell.1;
        assert(y * w <= (h - 1) * w) by (nonlinear_arith)
            requires
                0 <= y <= h - 1,
                0 <= w,
        ;
        assert((h - 1) * w == h * w - w) by (nonlinear_arith);
        assert(w * h == h * w) by (nonlinear_arith);
        assert(0 <= y * w) by (nonlinear_arith)
            requires
                0 <= y,
                0 <= w,
        ;
    }

    /// The untouched board is well formed.
    pub proof fn lemma_untouched_wf(self)
        requires
            0 <= self.width <= i32::MAX,
            0 <= self.height <= i32::MAX,
            self.width * self.height <= i32::MAX,
            self == Board::untouched(self.width, self.height),
        ensures
            self.wf(),
    {
        let w = self.width;
        let h = self.height;
        assert(0 <= w * h) by (nonlinear_arith)
            requires
                0 <= w,
                0 <= h,
        ;
    }

    /// The cell that stands at `index` lies on the board, at the column and
    /// the row that division by the width gives.
    pub proof fn lemma_position_of_index(self, index: int)
        requires
            self.shaped(),
            0 <= index < self.fields.len(),
        ensures
            self.width > 0,
            0 <= index % self.width < self.width,
            0 <= index / self.width < self.height,
            (index / self.width) * self.width + index % self.width == index,
    {
        let w = self.width;
        let h = self.height;
        assert(w > 0) by (nonlinear_arith)
            requires
                0 <= w,
                0 <= h,
                0 < w * h,
        ;
        assert(index == w * (index / w) + index % w && 0 <= index % w < w) by (nonlinear_arith)
            requires
                w > 0,
        ;
        assert(index / w < h) by (nonlinear_arith)
            requires
                w > 0,
                0 <= index < w * h,
                index == w * (index / w) + index % w,
                0 <= index % w < w,
        ;
        assert(0 <= index / w) by (nonlinear_arith)
            requires
                w > 0,
                0 <= index,
                index == w * (index / w) + index % w,
                0 <= index % w < w,
        ;
        assert((index / w) * w == w * (index / w)) by (nonlinear_arith);
    }

    /// Where the mines lie decides how many lie around a cell.
    pub proof fn lemma_mines_among_same(self, other: Board, pos: Position, k: nat)
        requires
            self.width == other.width,
            self.height == other.height,
            self.fields.len() == other.fields.len(),
            forall|i: int|
                0 <= i < self.fields.len() ==> (#[trigger] self.fields[i]).mine
                    == other.fields[i].mine,
            self.shaped(),
        ensures
            self.mines_among(pos, k) == other.mines_among(pos, k),
        decreases k,
    {
        if k > 0 {
            self.lemma_mines_among_same(other, pos, (k - 1) as nat);
            let n = neighbour_at(pos, (k - 1) as nat);
            if self.holds(n) {
                self.lemma_cell_index(n);
            }
        }
    }

    /// Moving the cursor to a cell of the board keeps the game well formed.
    pub proof fn lemma_cursor_moved(self, pos: Position)
        requires
            self.wf(),
            self.on_board(pos),
        ensures
            (Board { cursor: pos, ..self }).wf(),
    {
        let moved = Board { cursor: pos, ..self };
        if self.initialized {
            assert forall|p: Position| moved.on_board(p) && !(#[trigger] moved.at(p)).mine implies
                moved.at(p).neighbours == moved.mines_around(p) by {
                assert(self.at(p) == moved.at(p));
                self.lemma_mines_among_same(moved, p, 8);
            }
        }
    }

    /// Replacing a cell by one with the same content keeps the game well
    /// formed.
    pub proof fn lemma_cell_restyled(self, pos: Position, field: FieldView)
        requires
            self.wf(),
            self.on_board(pos),
            field.mine == self.at(pos).mine,
            field.neighbours == self.at(pos).neighbours,
        ensures
            self.with_cell(pos, field).wf(),
    {
        let after = self.with_cell(pos, field);
        lemma_index_on_board(self, pos);
        if self.initialized {
            assert forall|p: Position| after.on_board(p) && !(#[trigger] after.at(p)).mine implies
                after.at(p).neighbours == after.mines_around(p) by {
                lemma_index_on_board(self, p);
                assert(self.at(p).mine == after.at(p).mine);
                assert(self.at(p).neighbours == after.at(p).neighbours);
                self.lemma_mines_among_same(after, p, 8);
            }
        }
    }

    /// The cell at a position of the board stands at that position's index,
    /// and nowhere else.
    pub proof fn lemma_position_of_index_of(self, pos: Position)
        requires
            self.shaped(),
            self.on_board(pos),
        ensures
            self.position_of(self.index_of(pos)) == pos,
    {
        vstd::arithmetic::div_mod::lemma_fundamental_div_mod_converse(
            self.index_of(pos),
            self.width,
            pos.y as int,
            pos.x as int,
        );
    }

    /// The position of the cell at an index has that index.
    pub proof fn lemma_index_of_position_of(self, index: int)
        requires
            self.shaped(),
            0 <= index < self.fields.len(),
        ensures
            self.on_board(self.position_of(index)),
            self.index_of(self.position_of(index)) == index,
    {
        self.lemma_position_of_index(index);
    }

    /// No more mines lie among the first `k` neighbours of a cell than `k`.
    pub proof fn lemma_mines_among_bound(self, pos: Position, k: nat)
        ensures
            self.mines_among(pos, k) <= k,
        decreases k,
    {
        if k > 0 {
            self.lemma_mines_among_bound(pos, (k - 1) as nat);
        }
    }

    /// Putting a mine on a board keeps its shape.
    pub proof fn lemma_with_mine_shaped(self, pos: Position)
        requires
            self.shaped(),
        ensures
            self.with_mine(pos).shaped(),
            self.with_mine(pos).fields.len() == self.fields.len(),
    {
        if self.on_board(pos) {
            lemma_index_on_board(self, pos);
        }
    }

    /// The mines that are put on a board lie at the positions given and
    /// nowhere else: the cells there are covered, unflagged mines, and every
    /// other cell and all else of the game is as before.
    pub proof fn lemma_mined(self, positions: Seq<Position>)
        requires
            self.shaped(),
        ensures
            self.mined(positions).shaped(),
            self.mined(positions) == (Board { fields: self.mined(positions).fields, ..self }),
            self.mined(positions).fields.len() == self.fields.len(),
            forall|i: int|
                0 <= i < self.fields.len() ==> (#[trigger] self.mined(positions).fields[i]) == if self.drawn(
                    positions,
                    i,
                ) {
                    FieldView::mine()
                } else {
                    self.fields[i]
                },
        decreases positions.len(),
    {
        if positions.len() > 0 {
            let before = positions.drop_last();
            let last = positions.last();
            let earlier = self.mined(before);
            self.lemma_mined(before);
            earlier.lemma_with_mine_shaped(last);
            if self.on_board(last) {
                lemma_index_on_board(self, last);
            }
            assert forall|i: int| 0 <= i < self.fields.len() implies (#[trigger] self.mined(
                positions,
            ).fields[i]) == if self.drawn(positions, i) {
                FieldView::mine()
            } else {
                self.fields[i]
            } by {
                if self.on_board(last) && self.index_of(last) == i {
                    assert(positions[positions.len() - 1] == last);
                } else if self.drawn(before, i) {
                    let j = choose|j: int|
                        0 <= j < before.len() && self.on_board(#[trigger] before[j])
                            && self.index_of(before[j]) == i;
                    assert(positions[j] == before[j]);
                } else if self.drawn(positions, i) {
                    let j = choose|j: int|
                        0 <= j < positions.len() && self.on_board(#[trigger] positions[j])
                            && self.index_of(positions[j]) == i;
                    if j < before.len() {
                        assert(before[j] == positions[j]);
                    }
                }
            }
        }
    }

    /// What the first click leaves before it opens a cell: the game has
    /// begun and is well formed, the cells at the positions drawn are
    /// covered, unflagged mines, every other cell holds what it held and is
    /// covered and flagged as before, and the cells of the board less the
    /// mines to lay are left to open.
    pub proof fn lemma_laid(self, positions: Seq<Position>)
        requires
            self.shaped(),
        ensures
            self.laid(positions).wf(),
            self.laid(positions) == (Board {
                fields: self.laid(positions).fields,
                initialized: true,
                remaining: (self.width * self.height - self.mine_count) as nat,
                ..self
            }),
            self.laid(positions).fields.len() == self.fields.len(),
            forall|i: int|
                0 <= i < self.fields.len() ==> {
                    let cell = #[trigger] self.laid(positions).fields[i];
                    if self.drawn(positions, i) {
                        cell.mine && cell.hidden && !cell.marked
                    } else {
                        cell.mine == self.fields[i].mine && cell.hidden == self.fields[i].hidden
                            && cell.marked == self.fields[i].marked
                    }
                },
    {
        let begun = Board { initialized: true, ..self };
        begun.lemma_mined(positions);
        let counted = Board {
            remaining: (self.width * self.height - self.mine_count) as nat,
            ..begun.mined(positions)
        };
        let w = self.width;
        let h = self.height;
        assert(0 <= 20 * (w * h) / 100 <= w * h) by (nonlinear_arith)
            requires
                0 <= w * h,
        ;
        counted.lemma_numbered();
        assert forall|i: int| 0 <= i < self.fields.len() implies {
            let cell = #[trigger] self.laid(positions).fields[i];
            if self.drawn(positions, i) {
                cell.mine && cell.hidden && !cell.marked
            } else {
                cell.mine == self.fields[i].mine && cell.hidden == self.fields[i].hidden
                    && cell.marked == self.fields[i].marked
            }
        } by {
            assert(begun.drawn(positions, i) == self.drawn(positions, i));
            assert(counted.fields[i] == begun.mined(positions).fields[i]);
        }
    }

    /// Working out the numbers keeps the shape of the board, changes nothing
    /// but the numbers, and makes the numbers right.
    pub proof fn lemma_numbered(self)
        requires
            self.shaped(),
        ensures
            self.numbered().shaped(),
            self.numbered().counted(),
    {
        let after = self.numbered();
        assert forall|p: Position| after.on_board(p) && !(#[trigger] after.at(p)).mine implies
            after.at(p).neighbours == after.mines_around(p) by {
            lemma_index_on_board(self, p);
            self.lemma_position_of_index_of(p);
            self.lemma_mines_among_same(after, p, 8);
            self.lemma_mines_among_bound(p, 8);
        }
    }

    /// Uncovering every cell of a well-formed game leaves it well formed.
    pub proof fn lemma_all_open_wf(self)
        requires
            self.wf(),
        ensures
            self.all_open().wf(),
    {
        let after = self.all_open();
        if self.initialized {
            assert forall|p: Position| after.on_board(p) && !(#[trigger] after.at(p)).mine implies
                after.at(p).neighbours == after.mines_around(p) by {
                lemma_index_on_board(self, p);
                assert(self.at(p).mine == after.at(p).mine);
                self.lemma_mines_among_same(after, p, 8);
            }
        }
    }
}

/// A position on the board has its place among the cells.
pub proof fn lemma_index_on_board(board: Board, pos: Position)
    requires
        board.shaped(),
        board.on_board(pos),
    ensures
        0 <= board.index_of(pos) < board.fields.len(),
        board.fields.len() <= i32::MAX,
        0 <= pos.y * board.width <= i32::MAX,
{
    board.lemma_cell_index((pos.x as int, pos.y as int));
    let w = board.width;
    let y = pos.y as int;
    assert(0 <= y * w) by (nonlinear_arith)
        requires
            0 <= y,
            0 <= w,
    ;
}

} // verus!
