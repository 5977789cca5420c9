//! A small mine-sweeping game on a rectangular board.

pub mod position;
pub mod neighbour_iter;
pub mod field;
pub mod board;
pub mod flood;
pub mod render;

use vstd::prelude::*;
use crate::mines::board::{
    hidden_empty,
    lemma_count_down_none,
    lemma_count_down_one,
    lemma_hidden_empty_update,
    lemma_index_on_board,
    Board,
};
use crate::mines::field::{Field, FieldView, Type};
use crate::mines::flood::is_neighbour;
use crate::mines::neighbour_iter::{neighbour_at, NeighbourIter};
use crate::mines::position::{rand_pos_in_range, Position};

verus! {

/// The game: a board of cells, a cursor, and the count of cells that are
/// left to open.
///
/// The count is kept by subtraction, not by looking at the board: where two
/// of the mines that the first click lays fall on one cell, it stands below
/// the number of covered cells without a mine.
pub struct Minesweeper {
    fields: Vec<Field>,
    width: i32,
    height: i32,
    cursor: Position,
    initialized: bool,
    mine_count: usize,
    remaining_fields_to_open: usize,
}

/// How the game stands after a click.
#[derive(Clone, Copy, Debug, PartialEq, Eq, Structural)]
pub enum GameStatus {
    MoreFieldsNeeded,
    YouWin,
    YouLose,
}

/// A step of the cursor.
#[derive(Clone, Copy, Debug, PartialEq, Eq, Structural)]
pub enum Direction {
    Up,
    Down,
    Left,
    Right,
}

impl Direction {
    /// Where a step in this direction leads from `pos`: up is towards
    /// smaller `y`, left towards smaller `x`.
    pub open spec fn target(self, pos: Position) -> (int, int) {
        match self {
            Direction::Up => (pos.x as int, pos.y - 1),
            Direction::Down => (pos.x as int, pos.y + 1),
            Direction::Left => (pos.x - 1, pos.y as int),
            Direction::Right => (pos.x + 1, pos.y as int),
        }
    }
}

impl View for Minesweeper {
    type V = Board;

    closed spec fn view(&self) -> Board {
        Board {
            width: self.width as int,
            height: self.height as int,
            fields: Seq::new(self.fields@.len(), |i: int| self.fields@[i]@),
            cursor: self.cursor,
            initialized: self.initialized,
            mine_count: self.mine_count as nat,
            remaining: self.remaining_fields_to_open as nat,
        }
    }
}

impl Minesweeper {
    /// A board of `width` by `height` covered empty cells, with the cursor
    /// in the middle. A fifth of the cells, rounded down, is the number of
    /// mines that the first click will try to lay.
    pub fn new(width: u32, height: u32) -> (game: Minesweeper)
        requires
            width <= i32::MAX,
            height <= i32::MAX,
            width * height <= i32::MAX,
        ensures
            game@.wf(),
            game@ == Board::untouched(width as int, height as int),
    {
        assert(width * height <= i32::MAX);
        let field_count: u32 = width * height;
        let mut fields: Vec<Field> = Vec::new();
        let mut i: u32 = 0;
        while i < field_count
            invariant
                0 <= i <= field_count,
                fields@.len() == i,
                forall|j: int| 0 <= j < i ==> (#[trigger] fields@[j])@ == FieldView::empty(),
            decreases field_count - i,
        {
            fields.push(Field::new_empty());
            i += 1;
        }
        let mine_count: u64 = 20 * (field_count as u64) / 100;
        let game = Minesweeper {
            fields,
            width: width as i32,
            height: height as i32,
            initialized: false,
            cursor: Position::from((width / 2) as i32, (height / 2) as i32),
            mine_count: mine_count as usize,
            remaining_fields_to_open: field_count as usize,
        };
        proof {
            let board = Board::untouched(width as int, height as int);
            assert(game@.fields =~= board.fields);
            board.lemma_untouched_wf();
        }
        game
    }

    /// The width of the board in cells.
    pub fn width(&self) -> (width: i32)
        ensures
            width == self@.width,
    {
        self.width
    }

    /// The height of the board in cells.
    pub fn height(&self) -> (height: i32)
        ensures
            height == self@.height,
    {
        self.height
    }

    /// The cell that the cursor is on.
    pub fn cursor(&self) -> (cursor: Position)
        ensures
            cursor == self@.cursor,
    {
        self.cursor
    }

    /// The number of mines that the first click tries to lay.
    pub fn mine_count(&self) -> (count: usize)
        ensures
            count == self@.mine_count,
    {
        self.mine_count
    }

    /// The count of cells that are left to open: the cells of the board
    /// before the first click, the cells less the mines to lay after it, and
    /// one less for each cell that a click has uncovered since.
    pub fn remaining_fields_to_open(&self) -> (count: usize)
        ensures
            count == self@.remaining,
    {
        self.remaining_fields_to_open
    }

    /// Whether `pos` lies on the board.
    pub fn is_valid_position(&self, pos: Position) -> (valid: bool)
        ensures
            valid == self@.on_board(pos),
    {
        if 0 <= pos.x && pos.x < self.width {
            if 0 <= pos.y && pos.y < self.height {
                return true;
            }
        }
        false
    }

    /// The place of the cell at `pos` in the row-by-row order of the board.
    pub fn position_to_index(&self, pos: Position) -> (index: usize)
        requires
            self@.shaped(),
            self@.on_board(pos),
        ensures
            index == self@.index_of(pos),
            index < self@.fields.len(),
    {
        proof {
            lemma_index_on_board(self@, pos);
        }
        (pos.y * self.width + pos.x) as usize
    }

    /// The position of the cell that is `index`-th in the row-by-row order
    /// of the board.
    pub fn index_to_position(&self, index: usize) -> (pos: Position)
        requires
            self@.shaped(),
            index < self@.fields.len(),
        ensures
            pos == self@.position_of(index as int),
            self@.on_board(pos),
            self@.index_of(pos) == index,
    {
        proof {
            self@.lemma_position_of_index(index as int);
        }
        let x = index % (self.width as usize);
        let y = index / (self.width as usize);
        Position::from(x as i32, y as i32)
    }

    /// The cell at `pos`, if `pos` lies on the board.
    pub fn field_at(&self, pos: Position) -> (field: Option<&Field>)
        requires
            self@.shaped(),
        ensures
            field is Some <==> self@.on_board(pos),
            field matches Some(f) ==> f@ == self@.at(pos),
    {
        if self.is_valid_position(pos) {
            let idx = self.position_to_index(pos);
            return Some(&self.fields[idx]);
        }
        None
    }

    /// The cell at `pos`, to be changed in place, if `pos` lies on the
    /// board. The count of cells that are left to open is not adjusted.
    fn field_at_mut(&mut self, pos: Position) -> (field: Option<&mut Field>)
        requires
            old(self)@.shaped(),
        ensures
            field is Some <==> old(self)@.on_board(pos),
            field matches Some(f) ==> (*f)@ == old(self)@.at(pos) && final(self)@ == (Board {
                fields: old(self)@.fields.update(old(self)@.index_of(pos), (*final(f))@),
                ..old(self)@
            }),
            field is None ==> final(self)@ == old(self)@,
    {
        if self.is_valid_position(pos) {
            let idx = self.position_to_index(pos);
            let field = &mut self.fields[idx];
            proof {
                assert(after_borrow(self)@.fields =~= old(self)@.fields.update(
                    idx as int,
                    (*final(field))@,
                ));
            }
            return Some(field);
        }
        None
    }

    /// Moves the cursor one cell in `direction`, unless that would leave
    /// the board.
    pub fn move_cursor(&mut self, direction: Direction)
        requires
            old(self)@.wf(),
        ensures
            final(self)@ == (Board {
                cursor: if old(self)@.holds(direction.target(old(self)@.cursor)) {
                    Position {
                        x: direction.target(old(self)@.cursor).0 as i32,
                        y: direction.target(old(self)@.cursor).1 as i32,
                    }
                } else {
                    old(self)@.cursor
                },
                ..old(self)@
            }),
            final(self)@.wf(),
    {
        let vertical_jump = Position::from(0, 1);
        let horizontal_jump = Position::from(1, 0);
        let new_pos = match direction {
            Direction::Up => self.cursor - vertical_jump,
            Direction::Down => self.cursor + vertical_jump,
            Direction::Left => self.cursor - horizontal_jump,
            Direction::Right => self.cursor + horizontal_jump,
        };

        // A step off the board leaves the cursor where it is.
        let _ = self.set_cursor(new_pos);
    }

    /// Puts the cursor on `pos`, or fails and leaves it where it is when
    /// `pos` is not on the board.
    pub fn set_cursor(&mut self, pos: Position) -> (outcome: Result<(), ()>)
        requires
            old(self)@.wf(),
        ensures
            outcome is Ok <==> old(self)@.on_board(pos),
            outcome is Ok ==> final(self)@ == (Board { cursor: pos, ..old(self)@ }),
            outcome is Err ==> final(self)@ == old(self)@,
            final(self)@.wf(),
    {
        if !self.is_valid_position(pos) {
            Err(())
        } else {
            self.cursor = pos;
            proof {
                old(self)@.lemma_cursor_moved(pos);
            }
            Ok(())
        }
    }

    /// Flags the cell under the cursor, or takes its flag off.
    pub fn toggle_marked_at_cursor(&mut self)
        requires
            old(self)@.wf(),
            old(self)@.on_board(old(self)@.cursor),
        ensures
            final(self)@ == old(self)@.with_cell(
                old(self)@.cursor,
                FieldView {
                    marked: !old(self)@.at(old(self)@.cursor).marked,
                    ..old(self)@.at(old(self)@.cursor)
                },
            ),
            final(self)@.wf(),
    {
        let cursor = self.cursor;
        match self.field_at_mut(cursor) {
            Some(field) => {
                if field.is_marked() {
                    field.unmark();
                } else {
                    field.mark();
                }
            },
            None => {},
        }
        proof {
            let cell = FieldView {
                marked: !old(self)@.at(old(self)@.cursor).marked,
                ..old(self)@.at(old(self)@.cursor)
            };
            lemma_index_on_board(old(self)@, cursor);
            old(self)@.lemma_cell_restyled(cursor, cell);
            assert(self@.fields =~= old(self)@.with_cell(cursor, cell).fields);
        }
    }

    /// Uncovers every cell. The count of cells that are left to open stays
    /// as it is.
    pub fn reveal_all_fields(&mut self)
        requires
            old(self)@.shaped(),
        ensures
            final(self)@ == old(self)@.all_open(),
            final(self)@.shaped(),
            old(self)@.wf() ==> final(self)@.wf(),
    {
        let n = self.fields.len();
        let mut i: usize = 0;
        while i < n
            invariant
                0 <= i <= n,
                n == self.fields@.len(),
                n == old(self).fields@.len(),
                self.width == old(self).width,
                self.height == old(self).height,
                self.cursor == old(self).cursor,
                self.initialized == old(self).initialized,
                self.mine_count == old(self).mine_count,
                self.remaining_fields_to_open == old(self).remaining_fields_to_open,
                forall|j: int|
                    0 <= j < i ==> (#[trigger] self.fields@[j])@ == (FieldView {
                        hidden: false,
                        ..old(self).fields@[j]@
                    }),
                forall|j: int| i <= j < n ==> (#[trigger] self.fields@[j]) == old(self).fields@[j],
            decreases n - i,
        {
            self.fields[i].uncover();
            i += 1;
        }
        proof {
            assert(self@.fields =~= old(self)@.all_open().fields);
            if old(self)@.wf() {
                old(self)@.lemma_all_open_wf();
            }
        }
    }

    /// Turns the cell at `pos` into a covered, unflagged mine. A position
    /// off the board changes nothing.
    pub fn place_mine(&mut self, pos: Position)
        requires
            old(self)@.shaped(),
        ensures
            final(self)@ == old(self)@.with_mine(pos),
            final(self)@.shaped(),
    {
        match self.field_at_mut(pos) {
            Some(field) => *field = Field::new_mine(),
            None => {},
        }
        proof {
            old(self)@.lemma_with_mine_shaped(pos);
        }
    }

    /// Lays `count` mines at random positions. Two of them may fall on the
    /// same cell, so fewer than `count` cells may end up mined.
    fn fill_field_with_mines(&mut self, count: u32)
        requires
            old(self)@.shaped(),
            count > 0 ==> old(self)@.width > 0 && old(self)@.height > 0,
        ensures
            old(self)@.mined_somewhere(count as nat, final(self)@),
            final(self)@.shaped(),
            final(self)@.width == old(self)@.width,
            final(self)@.height == old(self)@.height,
            final(self)@.cursor == old(self)@.cursor,
            final(self)@.initialized == old(self)@.initialized,
            final(self)@.mine_count == old(self)@.mine_count,
            final(self)@.fields.len() == old(self)@.fields.len(),
            final(self)@.remaining == old(self)@.remaining,
            forall|i: int|
                0 <= i < old(self)@.fields.len() ==> (#[trigger] final(self)@.fields[i])
                    == old(self)@.fields[i] || final(self)@.fields[i] == FieldView::mine(),
    {
        let mut laid: u32 = 0;
        let ghost mut positions: Seq<Position> = Seq::empty();
        while laid < count
            invariant
                0 <= laid <= count,
                count > 0 ==> self@.width > 0 && self@.height > 0,
                positions.len() == laid,
                forall|i: int|
                    0 <= i < positions.len() ==> old(self)@.on_board(#[trigger] positions[i]),
                self@ == old(self)@.mined(positions),
                self@.shaped(),
                self@.width == old(self)@.width,
                self@.height == old(self)@.height,
                self@.cursor == old(self)@.cursor,
                self@.initialized == old(self)@.initialized,
                self@.mine_count == old(self)@.mine_count,
                self@.fields.len() == old(self)@.fields.len(),
                self@.remaining == old(self)@.remaining,
                forall|i: int|
                    0 <= i < old(self)@.fields.len() ==> (#[trigger] self@.fields[i]) == old(
                        self,
                    )@.fields[i] || self@.fields[i] == FieldView::mine(),
            decreases count - laid,
        {
            let mine_pos = rand_pos_in_range(Position::from(self.width, self.height));
            let ghost before = self@;
            proof {
                lemma_index_on_board(before, mine_pos);
            }
            self.place_mine(mine_pos);
            proof {
                assert(positions.push(mine_pos).drop_last() =~= positions);
                positions = positions.push(mine_pos);
            }
            assert forall|i: int| 0 <= i < old(self)@.fields.len() implies (
            #[trigger] self@.fields[i]) == old(self)@.fields[i] || self@.fields[i]
                == FieldView::mine() by {
                assert(before.fields[i] == old(self)@.fields[i] || before.fields[i]
                    == FieldView::mine());
            }
            laid += 1;
        }
    }

    /// The number of mines on the eight cells around `pos`.
    pub fn get_neighbour_mines(&self, pos: Position) -> (count: u8)
        requires
            self@.shaped(),
            crate::mines::neighbour_iter::in_reach(pos, 0),
        ensures
            count == self@.mines_around(pos),
    {
        let cells = NeighbourIter::new(pos).take(8);
        let mut mine_count: u8 = 0;
        let mut k: usize = 0;
        while k < 8
            invariant
                0 <= k <= 8,
                cells@.len() == 8,
                self@.shaped(),
                forall|j: int|
                    0 <= j < 8 ==> (#[trigger] cells@[j].x as int, cells@[j].y as int)
                        == crate::mines::neighbour_iter::neighbour_at(pos, j as nat),
                mine_count == self@.mines_among(pos, k as nat),
                mine_count <= k,
            decreases 8 - k,
        {
            let neighbour = cells[k];
            assert((cells@[k as int].x as int, cells@[k as int].y as int)
                == crate::mines::neighbour_iter::neighbour_at(pos, k as nat));
            if self.is_valid_position(neighbour) {
                let idx = self.position_to_index(neighbour);
                if self.fields[idx].typ_is_mine() {
                    mine_count += 1;
                }
            }
            k += 1;
        }
        mine_count
    }

    /// Records in every cell without a mine the number of mines around it.
    fn calc_neighbours_for_all_empty_fields(&mut self)
        requires
            old(self)@.shaped(),
        ensures
            final(self)@ == old(self)@.numbered(),
            final(self)@.shaped(),
            final(self)@.counted(),
    {
        let n = self.fields.len();
        let mut idx: usize = 0;
        while idx < n
            invariant
                0 <= idx <= n,
                n == self@.fields.len(),
                n == old(self)@.fields.len(),
                self@.shaped(),
                old(self)@.shaped(),
                self@ == (Board { fields: self@.fields, ..old(self)@ }),
                forall|i: int|
                    0 <= i < idx ==> (#[trigger] self@.fields[i]) == old(self)@.numbered().fields[i],
                forall|i: int| idx <= i < n ==> (#[trigger] self@.fields[i]) == old(self)@.fields[i],
            decreases n - idx,
        {
            let position = self.index_to_position(idx);
            let ghost before = self@;
            proof {
                before.lemma_mines_among_same(old(self)@, position, 8);
            }
            let count = self.get_neighbour_mines(position);
            match self.fields[idx].typ_mut() {
                Type::Empty(e) => e.set_neighbours(count),
                _ => {},
            }
            proof {
                let after = self@;
                assert(after.fields.len() == before.fields.len());
                assert(after.fields[idx as int].hidden == before.fields[idx as int].hidden);
                assert(after.fields[idx as int].marked == before.fields[idx as int].marked);
                assert(after.fields[idx as int].mine == before.fields[idx as int].mine);
                assert(forall|i: int| 0 <= i < n && i != idx ==> after.fields[i] == before.fields[i]);
            }
            idx += 1;
        }
        proof {
            assert(self@.fields =~= old(self)@.numbered().fields);
            old(self)@.lemma_numbered();
        }
    }

    /// Uncovers the covered empty cells around `pos`, and goes on from each
    /// of them that has no mine around it.
    fn recursively_open_fields(&mut self, pos: Position)
        requires
            old(self)@.shaped(),
            old(self)@.on_board(pos),
        ensures
            final(self)@.shaped(),
            old(self)@.uncovers_to(final(self)@),
            old(self)@.uncovered_reached(final(self)@, pos),
            old(self)@.settled_in(final(self)@),
            final(self)@.open_around(pos),
            final(self)@ == old(self)@.flooded(pos),
            hidden_empty(final(self)@.fields) <= hidden_empty(old(self)@.fields),
        decreases hidden_empty(old(self)@.fields),
    {
        let cells = NeighbourIter::new(pos).take(8);
        let mut k: usize = 0;
        proof {
            lemma_count_down_none(self@.remaining);
        }
        while k < 8
            invariant
                0 <= k <= 8,
                cells@.len() == 8,
                forall|j: int|
                    0 <= j < 8 ==> (#[trigger] cells@[j].x as int, cells@[j].y as int)
                        == neighbour_at(pos, j as nat),
                old(self)@.shaped(),
                old(self)@.on_board(pos),
                self@.shaped(),
                old(self)@.uncovers_to(self@),
                old(self)@.uncovered_reached(self@, pos),
                old(self)@.settled_in(self@),
                self@.open_among(pos, k as nat),
                hidden_empty(self@.fields) <= hidden_empty(old(self)@.fields),
            decreases 8 - k,
        {
            let neighbour = cells[k];
            let ghost now = self@;
            assert((cells@[k as int].x as int, cells@[k as int].y as int) == neighbour_at(
                pos,
                k as nat,
            ));
            if self.is_valid_position(neighbour) {
                let idx = self.position_to_index(neighbour);
                if !self.fields[idx].typ_is_mine() && self.fields[idx].hidden() {
                    let lonely = self.fields[idx].typ().is_lonely();
                    proof {
                        assert(is_neighbour(pos, neighbour));
                        old(self)@.lemma_uncover_neighbour(now, pos, neighbour);
                    }
                    self.fields[idx].uncover();
                    // Goes round below zero where two mines fell on one cell
                    // and more cells are opened than were counted.
                    self.remaining_fields_to_open = self.remaining_fields_to_open.wrapping_sub(1);
                    let ghost next = now.opened_at(neighbour);
                    proof {
                        lemma_count_down_one(now.remaining);
                        assert(self@.fields =~= next.fields);
                        assert(self@ == next);
                    }
                    proof {
                        now.lemma_open_among_stays(next, pos, k as nat);
                    }
                    if lonely {
                        self.recursively_open_fields(neighbour);
                        proof {
                            old(self)@.lemma_flood_through_neighbour(now, self@, pos, neighbour);
                            next.lemma_open_among_stays(self@, pos, k as nat);
                            next.lemma_cell_index(neighbour_at(pos, k as nat));
                        }
                    }
                }
            }
            proof {
                if self@.holds(neighbour_at(pos, k as nat)) {
                    self@.lemma_cell_index(neighbour_at(pos, k as nat));
                }
            }
            k += 1;
        }
        proof {
            old(self)@.lemma_flood_exact(self@, pos);
        }
    }

    /// Opens the cell under the cursor. The first click of a game lays the
    /// mines first, at random, and works out the numbers.
    ///
    /// Once the mines are laid the outcome is the one that
    /// [`Board::clicked`] defines. A first click has that outcome on the
    /// board that [`Board::laid`] defines for the positions that were drawn,
    /// as many as there are mines to lay.
    pub fn click(&mut self) -> (status: GameStatus)
        requires
            old(self)@.wf(),
            old(self)@.on_board(old(self)@.cursor),
        ensures
            final(self)@.wf(),
            final(self)@.initialized,
            old(self)@.initialized ==> (final(self)@, status) == old(self)@.clicked(),
            !old(self)@.initialized ==> exists|positions: Seq<Position>|
                old(self)@.draws(old(self)@.mine_count, positions) && (final(self)@, status)
                    == (#[trigger] old(self)@.laid(positions)).clicked(),
    {
        if !self.initialized {
            self.lay_mines();
        }
        self.open_at_cursor()
    }

    /// Lays the mines at random, sets the count of cells that are left to
    /// open to the cells of the board less the mines to lay, and records in
    /// every cell without a mine the number of mines around it.
    fn lay_mines(&mut self)
        requires
            old(self)@.wf(),
            !old(self)@.initialized,
        ensures
            exists|positions: Seq<Position>|
                old(self)@.draws(old(self)@.mine_count, positions) && final(self)@
                    == #[trigger] old(self)@.laid(positions),
            final(self)@.wf(),
            final(self)@.initialized,
            final(self)@.width == old(self)@.width,
            final(self)@.height == old(self)@.height,
            final(self)@.cursor == old(self)@.cursor,
    {
        self.initialized = true;
        let ghost begun = self@;
        proof {
            assert(begun.fields =~= old(self)@.fields);
            assert(begun == (Board { initialized: true, ..old(self)@ }));
            let w = self@.width;
            let h = self@.height;
            if self.mine_count > 0 {
                assert(w > 0 && h > 0) by (nonlinear_arith)
                    requires
                        0 <= w,
                        0 <= h,
                        w * h > 0,
                ;
            }
        }
        assert(self.mine_count <= self@.width * self@.height <= i32::MAX) by (nonlinear_arith)
            requires
                self.mine_count == 20 * (self@.width * self@.height) / 100,
                0 <= self@.width * self@.height <= i32::MAX,
        ;
        self.fill_field_with_mines(self.mine_count as u32);
        let ghost positions = choose|positions: Seq<Position>|
            begun.draws(begun.mine_count, positions) && self@ == #[trigger] begun.mined(positions);
        self.remaining_fields_to_open = (self.width * self.height) as usize - self.mine_count;

        // The first cell may be a mine: the mines are laid before it is
        // looked at.
        self.calc_neighbours_for_all_empty_fields();
        proof {
            assert(old(self)@.draws(old(self)@.mine_count, positions));
            assert(self@ == old(self)@.laid(positions));
        }
    }

    /// Opens the cell under the cursor of a game whose mines are laid.
    pub fn open_at_cursor(&mut self) -> (status: GameStatus)
        requires
            old(self)@.wf(),
            old(self)@.initialized,
            old(self)@.on_board(old(self)@.cursor),
        ensures
            (final(self)@, status) == old(self)@.clicked(),
            final(self)@.wf(),
            final(self)@.initialized,
    {
        let pos = self.cursor;
        let idx = self.position_to_index(pos);

        // Flagged cells and cells that are open already take no click.
        if self.fields[idx].is_marked() || !self.fields[idx].hidden() {
            return GameStatus::MoreFieldsNeeded;
        }
        if self.fields[idx].typ_is_mine() {
            self.reveal_all_fields();
            return GameStatus::YouLose;
        }
        proof {
            lemma_hidden_empty_update(self@.fields, idx as int, self@.opened(pos));
            lemma_count_down_one(self@.remaining);
        }
        self.fields[idx].uncover();
        self.remaining_fields_to_open = self.remaining_fields_to_open.wrapping_sub(1);
        let ghost opened = old(self)@.opened_at(pos);
        proof {
            assert(self@.fields =~= opened.fields);
            assert(self@ == opened);
            assert(old(self)@.uncovers_to(opened));
        }
        self.recursively_open_fields(pos);
        proof {
            old(self)@.lemma_uncovers_trans(opened, self@);
            old(self)@.lemma_uncovered_wf(self@);
        }
        if self.remaining_fields_to_open == 0 {
            self.reveal_all_fields();
            GameStatus::YouWin
        } else {
            GameStatus::MoreFieldsNeeded
        }
    }
}

} // verus!
