//! Which cells a click uncovers.
//!
//! Opening a cell uncovers the empty cells around it, and goes on from each
//! of those that has no mine around it. The cells that this reaches are
//! defined here by the paths that lead to them.

use vstd::prelude::*;
use crate::mines::board::{
    count_down,
    hidden_empty,
    lemma_count_down_one,
    lemma_count_down_twice,
    lemma_hidden_empty_update,
    lemma_index_on_board,
    Board,
};
use crate::mines::GameStatus;
use crate::mines::field::FieldView;
use crate::mines::neighbour_iter::neighbour_at;
use crate::mines::position::Position;

verus! {

/// Whether `to` is one of the eight cells around `from`.
pub open spec fn is_neighbour(from: Position, to: Position) -> bool {
    exists|k: nat| k < 8 && #[trigger] neighbour_at(from, k) == (to.x as int, to.y as int)
}

impl Board {
    /// Whether `pos` is a covered cell of the board without a mine.
    pub open spec fn covered_empty(self, pos: Position) -> bool {
        self.on_board(pos) && self.at(pos).hidden && !self.at(pos).mine
    }

    /// Whether `path` leads from a neighbour of `root` from cell to
    /// neighbouring cell, over covered cells without a mine, each of which,
    /// but for the last, has no mine around it.
    pub open spec fn flood_path(self, root: Position, path: Seq<Position>) -> bool {
        &&& path.len() > 0
        &&& is_neighbour(root, path[0])
        &&& forall|i: int| 0 <= i < path.len() ==> self.covered_empty(#[trigger] path[i])
        &&& forall|i: int|
            0 <= i < path.len() - 1 ==> self.at(#[trigger] path[i]).neighbours == 0 && is_neighbour(
                path[i],
                path[i + 1],
            )
    }

    /// Whether opening `root` uncovers `cell` as well.
    pub open spec fn flood_reaches(self, root: Position, cell: Position) -> bool {
        exists|path: Seq<Position>| #[trigger] self.flood_path(root, path) && path.last() == cell
    }

    /// The board after the cells that opening `root` reaches have been
    /// uncovered, with the count of cells that are left to open taken down
    /// by one for each of them.
    pub open spec fn flooded(self, root: Position) -> Board {
        let fields = Seq::new(
            self.fields.len(),
            |i: int|
                if self.flood_reaches(root, self.position_of(i)) {
                    FieldView { hidden: false, ..self.fields[i] }
                } else {
                    self.fields[i]
                },
        );
        Board {
            fields,
            remaining: count_down(self.remaining, hidden_empty(self.fields) - hidden_empty(fields)),
            ..self
        }
    }

    /// Whether `later` is this board with some covered cells without a mine
    /// uncovered, the count of cells that are left to open taken down by
    /// one for each of them, and nothing else changed.
    pub open spec fn uncovers_to(self, later: Board) -> bool {
        &&& later.remaining == count_down(
            self.remaining,
            hidden_empty(self.fields) - hidden_empty(later.fields),
        )
        &&& later.width == self.width
        &&& later.height == self.height
        &&& later.cursor == self.cursor
        &&& later.initialized == self.initialized
        &&& later.mine_count == self.mine_count
        &&& later.fields.len() == self.fields.len()
        &&& forall|i: int|
            0 <= i < self.fields.len() ==> (#[trigger] later.fields[i]) == self.fields[i] || (
            self.fields[i].hidden && !self.fields[i].mine && later.fields[i] == (FieldView {
                hidden: false,
                ..self.fields[i]
            }))
    }

    /// Whether each of the first `count` cells around `pos` that lies on the
    /// board and holds no mine is uncovered.
    pub open spec fn open_among(self, pos: Position, count: nat) -> bool {
        forall|k: nat|
            k < count && self.holds(#[trigger] neighbour_at(pos, k)) && !self.cell(
                neighbour_at(pos, k),
            ).mine ==> !self.cell(neighbour_at(pos, k)).hidden
    }

    /// Whether every cell around `pos` that lies on the board and holds no
    /// mine is uncovered.
    pub open spec fn open_around(self, pos: Position) -> bool {
        self.open_among(pos, 8)
    }

    /// Whether every cell that was uncovered between `self` and `later` and
    /// has no mine around it has all its empty neighbours uncovered in
    /// `later`.
    pub open spec fn settled_in(self, later: Board) -> bool {
        forall|i: int|
            0 <= i < self.fields.len() && (#[trigger] self.fields[i]).hidden
                && !later.fields[i].hidden && self.fields[i].neighbours == 0
                ==> later.open_around(self.position_of(i))
    }

    /// Whether every cell that was uncovered between `self` and `later` is
    /// one that opening `root` reaches.
    pub open spec fn uncovered_reached(self, later: Board, root: Position) -> bool {
        forall|i: int|
            0 <= i < self.fields.len() && (#[trigger] self.fields[i]).hidden
                && !later.fields[i].hidden ==> self.flood_reaches(root, self.position_of(i))
    }

    /// Uncovering is transitive.
    pub proof fn lemma_uncovers_trans(self, mid: Board, later: Board)
        requires
            self.uncovers_to(mid),
            mid.uncovers_to(later),
        ensures
            self.uncovers_to(later),
    {
        lemma_count_down_twice(
            self.remaining,
            hidden_empty(self.fields) - hidden_empty(mid.fields),
            hidden_empty(mid.fields) - hidden_empty(later.fields),
        );
        assert forall|i: int| 0 <= i < self.fields.len() implies (#[trigger] later.fields[i])
            == self.fields[i] || (self.fields[i].hidden && !self.fields[i].mine && later.fields[i]
            == (FieldView { hidden: false, ..self.fields[i] })) by {
            assert(mid.fields[i] == self.fields[i] || (self.fields[i].hidden
                && !self.fields[i].mine && mid.fields[i] == (FieldView {
                hidden: false,
                ..self.fields[i]
            })));
        }
    }

    /// Once cells around a cell are open they stay open.
    pub proof fn lemma_open_among_stays(self, later: Board, pos: Position, count: nat)
        requires
            self.shaped(),
            self.uncovers_to(later),
            self.open_among(pos, count),
        ensures
            later.open_among(pos, count),
    {
        assert forall|k: nat|
            k < count && later.holds(#[trigger] neighbour_at(pos, k)) && !later.cell(
                neighbour_at(pos, k),
            ).mine implies !later.cell(neighbour_at(pos, k)).hidden by {
            self.lemma_cell_index(neighbour_at(pos, k));
        }
    }

    /// Uncovering one covered empty cell next to `root` keeps the board in
    /// shape and uncovers a cell that opening `root` reaches. If the cell
    /// has a mine around it, the uncovered cells stay settled.
    pub proof fn lemma_uncover_neighbour(self, now: Board, root: Position, cell: Position)
        requires
            self.shaped(),
            now.shaped(),
            self.uncovers_to(now),
            self.uncovered_reached(now, root),
            self.settled_in(now),
            is_neighbour(root, cell),
            now.covered_empty(cell),
        ensures
            now.opened_at(cell).shaped(),
            hidden_empty(now.opened_at(cell).fields) + 1 == hidden_empty(now.fields),
            now.uncovers_to(now.opened_at(cell)),
            self.uncovers_to(now.opened_at(cell)),
            self.uncovered_reached(now.opened_at(cell), root),
            self.covered_empty(cell),
            self.at(cell) == now.at(cell),
            now.at(cell).neighbours != 0 ==> self.settled_in(
                now.opened_at(cell),
            ),
    {
        let next = now.opened_at(cell);
        let index = now.index_of(cell);
        lemma_index_on_board(now, cell);
        lemma_hidden_empty_update(now.fields, index, now.opened(cell));
        lemma_count_down_one(now.remaining);
        assert(now.uncovers_to(next));
        self.lemma_uncovers_trans(now, next);
        assert(self.fields[index] == now.fields[index]);
        now.lemma_position_of_index_of(cell);
        assert forall|i: int|
            0 <= i < self.fields.len() && (#[trigger] self.fields[i]).hidden
                && !next.fields[i].hidden implies self.flood_reaches(root, self.position_of(i)) by {
            if i == index {
                let path = seq![cell];
                assert(path[0] == cell);
                assert(self.flood_path(root, path));
                assert(path.last() == cell);
            }
        }
        if now.at(cell).neighbours != 0 {
            assert forall|i: int|
                0 <= i < self.fields.len() && (#[trigger] self.fields[i]).hidden
                    && !next.fields[i].hidden && self.fields[i].neighbours == 0 implies next.open_around(
                self.position_of(i),
            ) by {
                assert(i != index);
                assert(now.open_around(self.position_of(i)));
                now.lemma_open_among_stays(next, self.position_of(i), 8);
            }
        }
    }

    /// After the flood from a cell next to `root` that has no mine around
    /// it, everything that was uncovered is reached from `root` and settled.
    pub proof fn lemma_flood_through_neighbour(
        self,
        now: Board,
        later: Board,
        root: Position,
        cell: Position,
    )
        requires
            self.shaped(),
            now.shaped(),
            self.uncovers_to(now),
            self.uncovered_reached(now, root),
            self.settled_in(now),
            is_neighbour(root, cell),
            now.covered_empty(cell),
            now.at(cell).neighbours == 0,
            now.opened_at(cell).uncovers_to(later),
            now.opened_at(cell).uncovered_reached(later, cell),
            now.opened_at(cell).settled_in(later),
            later.open_around(cell),
        ensures
            self.uncovers_to(later),
            now.uncovers_to(later),
            self.uncovered_reached(later, root),
            self.settled_in(later),
    {
        let next = now.opened_at(cell);
        let index = now.index_of(cell);
        self.lemma_uncover_neighbour(now, root, cell);
        lemma_index_on_board(now, cell);
        now.lemma_position_of_index_of(cell);
        self.lemma_uncovers_trans(next, later);
        now.lemma_uncovers_trans(next, later);
        assert forall|i: int|
            0 <= i < self.fields.len() && (#[trigger] self.fields[i]).hidden
                && !later.fields[i].hidden implies self.flood_reaches(root, self.position_of(i)) by {
            if next.fields[i].hidden {
                assert(next.flood_reaches(cell, next.position_of(i)));
                let path = choose|path: Seq<Position>| #[trigger]
                    next.flood_path(cell, path) && path.last() == next.position_of(i);
                self.lemma_flood_path_earlier(next, cell, path);
                self.lemma_flood_path_through(root, cell, path);
            }
        }
        assert forall|i: int|
            0 <= i < self.fields.len() && (#[trigger] self.fields[i]).hidden
                && !later.fields[i].hidden && self.fields[i].neighbours == 0 implies later.open_around(
            self.position_of(i),
        ) by {
            if i == index {
            } else if !now.fields[i].hidden {
                assert(now.open_around(self.position_of(i)));
                now.lemma_open_among_stays(later, self.position_of(i), 8);
            } else {
                assert(next.fields[i].hidden);
                assert(next.fields[i].neighbours == 0);
            }
        }
    }

    /// A path over covered cells of a later board is a path over covered
    /// cells of the earlier one.
    pub proof fn lemma_flood_path_earlier(self, later: Board, root: Position, path: Seq<Position>)
        requires
            self.shaped(),
            self.uncovers_to(later),
            later.flood_path(root, path),
        ensures
            self.flood_path(root, path),
    {
        assert forall|i: int| 0 <= i < path.len() implies self.covered_empty(
            #[trigger] path[i],
        ) by {
            assert(later.covered_empty(path[i]));
            lemma_index_on_board(self, path[i]);
        }
        assert forall|i: int| 0 <= i < path.len() - 1 implies self.at(
            #[trigger] path[i],
        ).neighbours == 0 && is_neighbour(path[i], path[i + 1]) by {
            assert(later.covered_empty(path[i]));
            lemma_index_on_board(self, path[i]);
        }
    }

    /// A path from a covered neighbour without a mine around it can be
    /// entered through that neighbour.
    pub proof fn lemma_flood_path_through(self, root: Position, via: Position, path: Seq<Position>)
        requires
            is_neighbour(root, via),
            self.covered_empty(via),
            self.at(via).neighbours == 0,
            self.flood_path(via, path),
        ensures
            self.flood_path(root, seq![via] + path),
            (seq![via] + path).last() == path.last(),
    {
        let longer = seq![via] + path;
        assert(longer[0] == via);
        assert forall|i: int| 0 <= i < longer.len() implies self.covered_empty(
            #[trigger] longer[i],
        ) by {
            if i > 0 {
                assert(longer[i] == path[i - 1]);
            }
        }
        assert forall|i: int| 0 <= i < longer.len() - 1 implies self.at(
            #[trigger] longer[i],
        ).neighbours == 0 && is_neighbour(longer[i], longer[i + 1]) by {
            if i > 0 {
                assert(longer[i] == path[i - 1]);
                assert(longer[i + 1] == path[i]);
            } else {
                assert(longer[1] == path[0]);
            }
        }
    }

    /// Every cell on a path from `root` is uncovered once the cells around
    /// `root` are open and the uncovered cells are settled.
    pub proof fn lemma_flood_path_opened(
        self,
        later: Board,
        root: Position,
        path: Seq<Position>,
        upto: int,
    )
        requires
            self.shaped(),
            self.uncovers_to(later),
            self.settled_in(later),
            later.open_around(root),
            self.flood_path(root, path),
            0 <= upto < path.len(),
        ensures
            !later.at(path[upto]).hidden,
        decreases upto,
    {
        let cell = path[upto];
        assert(self.covered_empty(cell));
        lemma_index_on_board(self, cell);
        let from = if upto == 0 {
            root
        } else {
            path[upto - 1]
        };
        assert(is_neighbour(from, cell));
        let k = choose|k: nat| k < 8 && #[trigger] neighbour_at(from, k) == (
            cell.x as int,
            cell.y as int,
        );
        if upto == 0 {
            assert(later.holds(neighbour_at(root, k)));
        } else {
            self.lemma_flood_path_opened(later, root, path, upto - 1);
            let before = path[upto - 1];
            assert(self.covered_empty(before));
            lemma_index_on_board(self, before);
            self.lemma_position_of_index_of(before);
            assert(self.fields[self.index_of(before)].hidden);
            assert(later.open_around(self.position_of(self.index_of(before))));
            assert(later.holds(neighbour_at(before, k)));
        }
    }

    /// What pins the flood down: a board on which only reached cells were
    /// uncovered, the cells around `root` are open and the uncovered cells
    /// are settled is the flooded board.
    pub proof fn lemma_flood_exact(self, later: Board, root: Position)
        requires
            self.shaped(),
            later.shaped(),
            self.uncovers_to(later),
            self.uncovered_reached(later, root),
            self.settled_in(later),
            later.open_around(root),
        ensures
            later == self.flooded(root),
    {
        let flooded = self.flooded(root);
        assert forall|i: int| 0 <= i < self.fields.len() implies later.fields[i]
            == flooded.fields[i] by {
            let cell = self.position_of(i);
            assert(later.fields[i] == self.fields[i] || (self.fields[i].hidden
                && !self.fields[i].mine && later.fields[i] == (FieldView {
                hidden: false,
                ..self.fields[i]
            })));
            if self.flood_reaches(root, cell) {
                let path = choose|path: Seq<Position>| #[trigger]
                    self.flood_path(root, path) && path.last() == cell;
                self.lemma_flood_path_opened(later, root, path, path.len() - 1);
                assert(self.covered_empty(cell));
                self.lemma_position_of_index(i);
                lemma_index_on_board(self, cell);
                self.lemma_index_of_position_of(i);
            }
        }
        assert(later.fields =~= flooded.fields);
    }

    /// Uncovering cells neither moves a mine nor changes a number, so the
    /// numbers stay right.
    pub proof fn lemma_uncovered_wf(self, later: Board)
        requires
            self.wf(),
            self.initialized,
            later.shaped(),
            self.uncovers_to(later),
        ensures
            later.wf(),
    {
        assert forall|p: Position| later.on_board(p) && !(#[trigger] later.at(p)).mine implies
            later.at(p).neighbours == later.mines_around(p) by {
            lemma_index_on_board(self, p);
            assert(self.at(p).mine == later.at(p).mine);
            assert(self.at(p).neighbours == later.at(p).neighbours);
            self.lemma_mines_among_same(later, p, 8);
        }
    }

    /// What a click on the cell under the cursor does once the mines are
    /// laid, and how the game stands after it.
    ///
    /// A flagged or uncovered cell is left alone. A mine ends the game
    /// lost, with every cell uncovered and the count of cells that are left
    /// to open as it was. An empty cell is uncovered together with the cells
    /// that the flood from it reaches, and the count goes down by one for
    /// each of them; if that brings the count to zero, the game is won and
    /// every cell is uncovered.
    pub open spec fn clicked(self) -> (Board, GameStatus) {
        let cell = self.at(self.cursor);
        if cell.marked || !cell.hidden {
            (self, GameStatus::MoreFieldsNeeded)
        } else if cell.mine {
            (self.all_open(), GameStatus::YouLose)
        } else {
            let flooded = self.opened_at(self.cursor).flooded(self.cursor);
            if flooded.remaining == 0 {
                (flooded.all_open(), GameStatus::YouWin)
            } else {
                (flooded, GameStatus::MoreFieldsNeeded)
            }
        }
    }
}

} // verus!
