//! One cell of the board.

use vstd::prelude::*;

verus! {

/// A cell without a mine, with the number of mines around it.
#[derive(Copy, Clone)]
pub struct Empty {
    neighbours: u8,
}

impl View for Empty {
    type V = u8;

    /// The number of mines around the cell.
    closed spec fn view(&self) -> u8 {
        self.neighbours
    }
}

impl Empty {
    /// A cell with no mines around it.
    pub fn new() -> (empty: Empty)
        ensures
            empty@ == 0,
    {
        Empty { neighbours: 0 }
    }

    /// The number of mines around the cell.
    pub fn neighbours(&self) -> (neighbours: u8)
        ensures
            neighbours == self@,
    {
        self.neighbours
    }

    /// Records the number of mines around the cell.
    pub fn set_neighbours(&mut self, neighbours: u8)
        ensures
            final(self)@ == neighbours,
    {
        self.neighbours = neighbours
    }
}

/// What a cell holds.
#[derive(Copy, Clone)]
pub enum Type {
    Empty(Empty),
    Mine,
}

impl Type {
    /// Whether this is an empty cell with no mines around it.
    pub fn is_lonely(&self) -> (lonely: bool)
        ensures
            lonely == (!(self is Mine) && self.neighbours() == 0),
    {
        match self {
            Type::Empty(empty) => empty.neighbours() == 0,
            Type::Mine => false,
        }
    }

    /// The number of mines recorded for an empty cell; zero for a mine.
    pub open spec fn neighbours(self) -> u8 {
        match self {
            Type::Empty(empty) => empty@,
            Type::Mine => 0,
        }
    }
}

/// A cell as a mathematical value.
pub struct FieldView {
    /// Whether the cell holds a mine.
    pub mine: bool,
    /// The number of mines recorded for an empty cell; zero for a mine.
    pub neighbours: u8,
    /// Whether the cell is still covered.
    pub hidden: bool,
    /// Whether the player has flagged the cell.
    pub marked: bool,
}

impl FieldView {
    /// A covered, unflagged empty cell with no mines around it.
    pub open spec fn empty() -> FieldView {
        FieldView { mine: false, neighbours: 0, hidden: true, marked: false }
    }

    /// A covered, unflagged mine.
    pub open spec fn mine() -> FieldView {
        FieldView { mine: true, neighbours: 0, hidden: true, marked: false }
    }
}

/// A cell of the board: what it holds, whether it is still covered, and
/// whether the player has flagged it.
pub struct Field {
    t: Type,
    hidden: bool,
    marked: bool,
}

impl View for Field {
    type V = FieldView;

    closed spec fn view(&self) -> FieldView {
        FieldView {
            mine: self.t is Mine,
            neighbours: self.t.neighbours(),
            hidden: self.hidden,
            marked: self.marked,
        }
    }
}

impl Field {
    /// A covered, unflagged empty cell.
    pub fn new_empty() -> (field: Field)
        ensures
            field@ == FieldView::empty(),
    {
        Field { t: Type::Empty(Empty::new()), hidden: true, marked: false }
    }

    /// A covered, unflagged mine.
    pub fn new_mine() -> (field: Field)
        ensures
            field@ == FieldView::mine(),
    {
        Field { t: Type::Mine, hidden: true, marked: false }
    }

    /// What the cell holds.
    pub fn typ(&self) -> (t: Type)
        ensures
            (t is Mine) == self@.mine,
            t.neighbours() == self@.neighbours,
    {
        self.t
    }

    /// Whether the cell holds a mine.
    pub fn typ_is_mine(&self) -> (mine: bool)
        ensures
            mine == self@.mine,
    {
        match self.t {
            Type::Mine => true,
            Type::Empty(_) => false,
        }
    }

    /// What the cell holds, to be changed in place. The cell keeps its cover
    /// and its flag.
    pub fn typ_mut(&mut self) -> (t: &mut Type)
        ensures
            (*t is Mine) == old(self)@.mine,
            (*t).neighbours() == old(self)@.neighbours,
            final(self)@ == (FieldView {
                mine: *final(t) is Mine,
                neighbours: (*final(t)).neighbours(),
                ..old(self)@
            }),
    {
        &mut self.t
    }

    /// Whether the cell is still covered.
    pub fn hidden(&self) -> (hidden: bool)
        ensures
            hidden == self@.hidden,
    {
        self.hidden
    }

    /// Whether the player has flagged the cell.
    pub fn is_marked(&self) -> (marked: bool)
        ensures
            marked == self@.marked,
    {
        self.marked
    }

    /// Uncovers the cell.
    pub fn uncover(&mut self)
        ensures
            final(self)@ == (FieldView { hidden: false, ..old(self)@ }),
    {
        self.hidden = false;
    }

    /// Flags the cell.
    pub fn mark(&mut self)
        ensures
            final(self)@ == (FieldView { marked: true, ..old(self)@ }),
    {
        self.marked = true;
    }

    /// Takes the flag off the cell.
    pub fn unmark(&mut self)
        ensures
            final(self)@ == (FieldView { marked: false, ..old(self)@ }),
    {
        self.marked = false;
    }
}

} // verus!
