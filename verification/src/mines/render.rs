//! The game as text.

use vstd::prelude::*;
use vstd::string::StringExecFns;
use crate::mines::board::Board;
use crate::mines::field::{Empty, Field, FieldView, Type};
use crate::mines::Minesweeper;
use crate::text::{decimal, push_decimal};

verus! {

/// An empty cell shows the number of mines around it, or a light shade
/// where there are none.
pub open spec fn empty_text(neighbours: u8) -> Seq<char> {
    if neighbours != 0 {
        decimal(neighbours as nat)
    } else {
        "░"@
    }
}

/// An uncovered cell shows a disc for a mine, and else what an empty cell
/// shows.
pub open spec fn content_text(mine: bool, neighbours: u8) -> Seq<char> {
    if mine {
        "⬤"@
    } else {
        empty_text(neighbours)
    }
}

/// A covered cell shows a cross where it is flagged and a dark shade where
/// it is not; an uncovered cell shows what it holds.
pub open spec fn field_text(field: FieldView) -> Seq<char> {
    if field.hidden && field.marked {
        "X"@
    } else if field.hidden {
        "▓"@
    } else {
        content_text(field.mine, field.neighbours)
    }
}

/// `count` times `unit`.
pub open spec fn repeated(unit: Seq<char>, count: nat) -> Seq<char>
    decreases count,
{
    if count == 0 {
        Seq::empty()
    } else {
        repeated(unit, (count - 1) as nat) + unit
    }
}

/// The line above and below the board.
pub open spec fn border_text(width: int) -> Seq<char> {
    repeated(" _ "@, (width + 1) as nat) + "\n"@
}

impl Board {
    /// The line that tells how many cells are left to open and how many
    /// mines the game lays.
    pub open spec fn header_text(self) -> Seq<char> {
        "Remaining fields: "@ + decimal(self.remaining) + "  Mines: "@ + decimal(self.mine_count)
            + "\n"@
    }

    /// The cell at `index` as it stands in its row: a bar before the first
    /// cell of a row, the cell between brackets where the cursor is on it
    /// and between blanks where it is not, a bar and a line break after the
    /// last cell of a row.
    pub open spec fn cell_text(self, index: int) -> Seq<char> {
        let opening = if index % self.width == 0 {
            "|"@
        } else {
            Seq::empty()
        };
        let cell = if self.position_of(index) == self.cursor {
            "["@ + field_text(self.fields[index]) + "]"@
        } else {
            " "@ + field_text(self.fields[index]) + " "@
        };
        let closing = if (index + 1) % self.width == 0 {
            "|\n"@
        } else {
            Seq::empty()
        };
        opening + cell + closing
    }

    /// The first `count` cells, row by row.
    pub open spec fn cells_text(self, count: nat) -> Seq<char>
        decreases count,
    {
        if count == 0 {
            Seq::empty()
        } else {
            self.cells_text((count - 1) as nat) + self.cell_text(count - 1)
        }
    }

    /// The whole game: header, border, the rows of cells, border.
    pub open spec fn text(self) -> Seq<char> {
        self.header_text() + border_text(self.width) + self.cells_text(self.fields.len())
            + border_text(self.width)
    }
}

impl Empty {
    /// The cell as it shows when uncovered.
    pub fn to_string(&self) -> (text: String)
        ensures
            text@ == empty_text(self@),
    {
        let mut text = String::new();
        if self.neighbours() != 0 {
            push_decimal(&mut text, self.neighbours() as u64);
        } else {
            text.append("░");
        }
        assert(text@ =~= empty_text(self@));
        text
    }
}

impl Type {
    /// The cell as it shows when uncovered.
    pub fn to_string(&self) -> (text: String)
        ensures
            text@ == content_text(self is Mine, self.neighbours()),
    {
        match self {
            Type::Empty(empty) => empty.to_string(),
            Type::Mine => {
                let mut text = String::new();
                text.append("⬤");
                assert(text@ =~= "⬤"@);
                text
            },
        }
    }
}

impl Field {
    /// The cell as it shows on the board.
    pub fn to_string(&self) -> (text: String)
        ensures
            text@ == field_text(self@),
    {
        if self.hidden() && self.is_marked() {
            let mut text = String::new();
            text.append("X");
            assert(text@ =~= "X"@);
            text
        } else if self.hidden() {
            let mut text = String::new();
            text.append("▓");
            assert(text@ =~= "▓"@);
            text
        } else {
            self.typ().to_string()
        }
    }
}

impl Minesweeper {
    /// Appends the line that stands above and below the board.
    pub fn print_horizontal_border(&self, out: &mut String)
        requires
            self@.shaped(),
        ensures
            final(out)@ == old(out)@ + border_text(self@.width),
    {
        let count: u32 = self.width as u32 + 1;
        let mut i: u32 = 0;
        assert(old(out)@ + repeated(" _ "@, 0) =~= old(out)@);
        while i < count
            invariant
                0 <= i <= count,
                out@ == old(out)@ + repeated(" _ "@, i as nat),
            decreases count - i,
        {
            out.append(" _ ");
            assert(out@ =~= old(out)@ + repeated(" _ "@, (i + 1) as nat));
            i += 1;
        }
        out.append("\n");
        assert(out@ =~= old(out)@ + border_text(self@.width));
    }

    /// The game as text: a line with the counts, then the board between two
    /// border lines, with the cell under the cursor between brackets.
    pub fn to_string(&self) -> (text: String)
        requires
            self@.shaped(),
        ensures
            text@ == self@.text(),
    {
        let mut text = String::new();
        text.append("Remaining fields: ");
        push_decimal(&mut text, self.remaining_fields_to_open as u64);
        text.append("  Mines: ");
        push_decimal(&mut text, self.mine_count as u64);
        text.append("\n");
        assert(text@ =~= self@.header_text());
        self.print_horizontal_border(&mut text);

        let n = self.fields.len();
        let ghost above = text@;
        let mut i: usize = 0;
        assert(above + self@.cells_text(0) =~= above);
        while i < n
            invariant
                0 <= i <= n,
                n == self@.fields.len(),
                self@.shaped(),
                text@ == above + self@.cells_text(i as nat),
            decreases n - i,
        {
            let ghost before = text@;
            proof {
                self@.lemma_position_of_index(i as int);
            }
            if i % (self.width as usize) == 0 {
                text.append("|");
            }
            let cell = self.fields[i].to_string();
            let pos = self.index_to_position(i);
            if pos == self.cursor {
                text.append("[");
                text.append(cell.as_str());
                text.append("]");
            } else {
                text.append(" ");
                text.append(cell.as_str());
                text.append(" ");
            }
            if (i + 1) % (self.width as usize) == 0 {
                text.append("|\n");
            }
            proof {
                assert(self.fields@[i as int]@ == self@.fields[i as int]);
                assert(text@ =~= before + self@.cell_text(i as int));
                assert(text@ =~= above + self@.cells_text((i + 1) as nat));
            }
            i += 1;
        }
        self.print_horizontal_border(&mut text);
        assert(text@ =~= self@.text());
        text
    }
}

} // verus!
