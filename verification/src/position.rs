//! Grid cells: a row letter `A..Z` and a column letter `a..z`.

use vstd::prelude::*;
use vstd::string::*;

verus! {

/// Number of rows, and of columns, on the grid.
pub const GRID_SIZE: u8 = 26;

/// Whether `text` is the two-character name of a grid cell: an uppercase
/// Latin letter followed by a lowercase Latin letter.
pub open spec fn is_cell_text(text: Seq<char>) -> bool {
    &&& text.len() == 2
    &&& 'A' <= text[0] <= 'Z'
    &&& 'a' <= text[1] <= 'z'
}

/// One cell of the 26 x 26 grid.
#[derive(Clone, Copy, Debug)]
pub struct GridPosition {
    row: char,
    column: char,
}

impl GridPosition {
    /// Every position names a cell on the grid.
    #[verifier::type_invariant]
    pub closed spec fn on_grid(self) -> bool {
        'A' <= self.row <= 'Z' && 'a' <= self.column <= 'z'
    }

    /// The row letter.
    pub closed spec fn row(self) -> char {
        self.row
    }

    /// The column letter.
    pub closed spec fn column(self) -> char {
        self.column
    }

    /// Distance of the row from row `A`, in cells.
    pub open spec fn row_index_of(self) -> int {
        self.row() as int - 'A' as int
    }

    /// Distance of the column from column `a`, in cells.
    pub open spec fn column_index_of(self) -> int {
        self.column() as int - 'a' as int
    }

    /// The cell's two-character name: row letter, then column letter.
    pub open spec fn text(self) -> Seq<char> {
        seq![self.row(), self.column()]
    }

    /// The position in the given row and column.
    pub closed spec fn at(row: char, column: char) -> GridPosition {
        GridPosition { row, column }
    }

    /// What a text names: the cell whose name it is, where it is one.
    pub open spec fn parse(text: Seq<char>) -> Option<GridPosition> {
        if is_cell_text(text) {
            Some(Self::at(text[0], text[1]))
        } else {
            None
        }
    }

    /// Reads a cell name. Succeeds exactly on the two-character names of
    /// grid cells: any other length, case or character is refused.
    pub fn new(pos: &str) -> (result: Option<Self>)
        ensures
            result == Self::parse(pos@),
            result matches Some(position) ==> position.on_grid() && position.text() == pos@,
    {
        if pos.unicode_len() != 2 {
            return None;
        }
        let row = pos.get_char(0);
        let column = pos.get_char(1);
        if row >= 'A' && row <= 'Z' && column >= 'a' && column <= 'z' {
            proof {
                parse_keeps_the_name(pos@);
            }
            Some(GridPosition { row, column })
        } else {
            None
        }
    }

    /// The cell's two-character name.
    pub fn to_string(&self) -> (s: String)
        ensures
            s@ == self.text(),
    {
        let mut s = String::new();
        s.push(self.row);
        s.push(self.column);
        assert(s@ =~= self.text());
        s
    }

    /// Distance of the row from row `A`, in cells.
    pub fn row_index(&self) -> (index: u8)
        ensures
            index < GRID_SIZE,
            index == self.row_index_of(),
    {
        proof {
            use_type_invariant(self);
        }
        (self.row as u32 - 'A' as u32) as u8
    }

    /// Distance of the column from column `a`, in cells.
    pub fn column_index(&self) -> (index: u8)
        ensures
            index < GRID_SIZE,
            index == self.column_index_of(),
    {
        proof {
            use_type_invariant(self);
        }
        (self.column as u32 - 'a' as u32) as u8
    }
}

/// Every cell name is read, and the position read bears the name it was
/// read from.
pub proof fn parse_keeps_the_name(text: Seq<char>)
    requires
        is_cell_text(text),
    ensures
        GridPosition::parse(text) is Some,
        GridPosition::parse(text).unwrap().on_grid(),
        GridPosition::parse(text).unwrap().text() == text,
{
    assert(GridPosition::parse(text).unwrap().text() =~= text);
}

/// A text that is not a cell name is not read, whatever its length.
pub proof fn parse_refuses_other_text(text: Seq<char>)
    requires
        !is_cell_text(text),
    ensures
        GridPosition::parse(text) is None,
{
}

/// The name of a position is a cell name, and reading it gives the position
/// back.
pub proof fn name_reads_back(position: GridPosition)
    requires
        position.on_grid(),
    ensures
        is_cell_text(position.text()),
        GridPosition::parse(position.text()) == Some(position),
{
}

/// Rows and columns are counted in the order of their letters: a later
/// letter has a greater index.
pub proof fn indices_follow_the_letters(first: GridPosition, second: GridPosition)
    requires
        first.on_grid(),
        second.on_grid(),
    ensures
        first.row() < second.row() <==> first.row_index_of() < second.row_index_of(),
        first.column() < second.column() <==> first.column_index_of() < second.column_index_of(),
        0 <= first.row_index_of() < GRID_SIZE,
        0 <= first.column_index_of() < GRID_SIZE,
{
}

} // verus!
