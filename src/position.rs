use vstd::prelude::*;

verus! {

/// A line/column location in mathematical integers.
pub struct Loc {
    pub line: int,
    pub column: int,
}

/// A coordinate in source text: a line and a column, both counted from 1.
#[derive(Debug, Clone, Copy)]
pub struct Position {
    /// The column position
    pub column: i32,
    /// The column that a new line starts at
    pub initial_column: i32,
    /// The line position
    pub line: i32,
}

impl View for Position {
    type V = Loc;

    open spec fn view(&self) -> Loc {
        Loc { line: self.line as int, column: self.column as int }
    }
}

impl Position {
    pub fn new(column: i32, line: i32) -> (r: Self)
        ensures
            r.column == column,
            r.initial_column == column,
            r.line == line,
    {
        Position { column, initial_column: column, line }
    }

    /// Moves one column to the right.
    pub fn next_column(&mut self)
        requires
            old(self).column < i32::MAX,
        ensures
            final(self).column == old(self).column + 1,
            final(self).line == old(self).line,
            final(self).initial_column == old(self).initial_column,
    {
        self.column = self.column + 1;
    }

    /// Moves to the start of the next line.
    pub fn next_line(&mut self)
        requires
            old(self).line < i32::MAX,
        ensures
            final(self).line == old(self).line + 1,
            final(self).column == old(self).initial_column,
            final(self).initial_column == old(self).initial_column,
    {
        self.line = self.line + 1;
        self.column = self.initial_column;
    }
}

} // verus!
