use vstd::prelude::*;

use crate::cell_type::{classify, conforms, CellType};
use crate::command::Command;
use crate::input_handler::handle_add_table_input;
use crate::selector::{next_index, Direction};

verus! {

/// What a grid of cells and its editing cursor and buffer hold.
pub struct GridView {
    pub rows: Seq<Seq<Seq<char>>>,
    pub row: int,
    pub column: int,
    pub buffer: Seq<char>,
}

/// What a table under edit holds.
pub struct TableView {
    pub name: Seq<char>,
    pub header: Seq<Seq<char>>,
    pub grid: GridView,
}

pub open spec fn strings_view(v: Seq<String>) -> Seq<Seq<char>> {
    v.map_values(|s: String| s@)
}

pub open spec fn grid_view(rows: Seq<Vec<String>>) -> Seq<Seq<Seq<char>>> {
    rows.map_values(|r: Vec<String>| strings_view(r@))
}

/// The number of columns that navigation wraps at: that of the first row.
pub open spec fn column_count(rows: Seq<Seq<Seq<char>>>) -> int {
    if rows.len() > 0 {
        rows[0].len() as int
    } else {
        0
    }
}

/// A row is valid when its second cell names a type and its first cell conforms to it.
pub open spec fn row_valid(r: Seq<Seq<char>>) -> bool {
    &&& r.len() >= 2
    &&& classify(r[1]) != CellType::Empty
    &&& conforms(classify(r[1]), r[0])
}

/// A grid is valid when it has a row, all its rows are as wide as the first, and
/// every row is valid.
pub open spec fn grid_valid(rows: Seq<Seq<Seq<char>>>) -> bool {
    &&& rows.len() >= 1
    &&& forall|i: int| 0 <= i < rows.len() ==> (#[trigger] rows[i]).len() == rows[0].len()
    &&& forall|i: int| 0 <= i < rows.len() ==> row_valid(#[trigger] rows[i])
}

/// The cursor lies on a cell of the grid, within the width that navigation wraps at.
pub open spec fn cursor_on_cell(g: GridView) -> bool {
    &&& 0 <= g.row < g.rows.len()
    &&& 0 <= g.column < column_count(g.rows)
    &&& g.column < g.rows[g.row].len()
}

/// The cursor lies on a cell of a non-empty grid of uniform width.
pub open spec fn grid_wf(g: GridView) -> bool {
    &&& g.rows.len() >= 1
    &&& forall|i: int| 0 <= i < g.rows.len() ==> (#[trigger] g.rows[i]).len() == g.rows[0].len()
    &&& 0 <= g.row < g.rows.len()
    &&& 0 <= g.column
    &&& (g.column < g.rows[0].len() || g.column == 0)
}

/// Moves one coordinate of the cursor circularly over `len` places; nothing moves when `len` is 0.
pub open spec fn moved(current: int, len: int, direction: Direction) -> int {
    if len > 0 {
        next_index(current, len, direction)
    } else {
        current
    }
}

/// The effect of one command on a grid under edit. Validation is not an edit.
pub open spec fn edit(g: GridView, c: Command) -> GridView {
    match c {
        Command::Backspace => GridView {
            buffer: if g.buffer.len() > 0 { g.buffer.drop_last() } else { g.buffer },
            ..g
        },
        Command::Commit => if cursor_on_cell(g) {
            GridView {
                rows: g.rows.update(g.row, g.rows[g.row].update(g.column, g.buffer)),
                buffer: Seq::empty(),
                ..g
            }
        } else {
            g
        },
        Command::MoveUp => GridView { row: moved(g.row, g.rows.len() as int, Direction::Backward), ..g },
        Command::MoveDown => GridView { row: moved(g.row, g.rows.len() as int, Direction::Forward), ..g },
        Command::MoveLeft => GridView {
            column: moved(g.column, column_count(g.rows), Direction::Backward),
            ..g
        },
        Command::MoveRight => GridView {
            column: moved(g.column, column_count(g.rows), Direction::Forward),
            ..g
        },
        Command::AppendChar(ch) => GridView { buffer: g.buffer.push(ch), ..g },
        _ => g,
    }
}

/// The effect of one command on a table under edit: an edit, or validation, which
/// writes `Yes` or `No` into the buffer.
pub open spec fn step(g: GridView, c: Command) -> GridView {
    match c {
        Command::Validate => GridView {
            buffer: if grid_valid(g.rows) { "Yes"@ } else { "No"@ },
            ..g
        },
        _ => edit(g, c),
    }
}

/// Committing, with the cursor on a cell, writes the buffer into that cell, leaves
/// every other cell and the cursor as they were, and empties the buffer.
pub proof fn lemma_commit_then_read(g: GridView)
    requires
        cursor_on_cell(g),
    ensures
        step(g, Command::Commit).rows[g.row][g.column] == g.buffer,
        step(g, Command::Commit).buffer.len() == 0,
        step(g, Command::Commit).row == g.row,
        step(g, Command::Commit).column == g.column,
        forall|i: int, j: int|
            0 <= i < g.rows.len() && 0 <= j < g.rows[i].len() && (i != g.row || j != g.column)
                ==> step(g, Command::Commit).rows[i][j] == g.rows[i][j],
{
}

/// Every command keeps the cursor on a cell of a non-empty grid of uniform width.
pub proof fn lemma_step_keeps_wf(g: GridView, c: Command)
    requires
        grid_wf(g),
    ensures
        grid_wf(step(g, c)),
{
    let n = step(g, c);
    if g.rows.len() > 0 {
        vstd::arithmetic::div_mod::lemma_mod_bound(g.row + 1, g.rows.len() as int);
        vstd::arithmetic::div_mod::lemma_mod_bound(g.row - 1 + g.rows.len(), g.rows.len() as int);
    }
    if g.rows[0].len() > 0 {
        vstd::arithmetic::div_mod::lemma_mod_bound(g.column + 1, g.rows[0].len() as int);
        vstd::arithmetic::div_mod::lemma_mod_bound(g.column - 1 + g.rows[0].len(), g.rows[0].len() as int);
    }
    if c == Command::Commit && cursor_on_cell(g) {
        assert forall|i: int| 0 <= i < n.rows.len() implies (#[trigger] n.rows[i]).len() == n.rows[0].len() by {
            assert(g.rows[i].len() == g.rows[0].len());
        }
    }
}

/// A grid whose every row is a non-empty name followed by `Text` is valid.
pub proof fn lemma_text_rows_valid(rows: Seq<Seq<Seq<char>>>)
    requires
        rows.len() >= 1,
        forall|i: int|
            0 <= i < rows.len() ==> (#[trigger] rows[i]).len() == 2 && rows[i][1] == "Text"@
                && rows[i][0].len() > 0,
    ensures
        grid_valid(rows),
{
    reveal_strlit("Text");
}

/// A grid that holds the row `["", "Text"]` is not valid.
pub proof fn lemma_empty_text_row_invalid(rows: Seq<Seq<Seq<char>>>, i: int)
    requires
        0 <= i < rows.len(),
        rows[i] == seq![Seq::<char>::empty(), "Text"@],
    ensures
        !grid_valid(rows),
{
    reveal_strlit("Text");
    assert(!row_valid(rows[i]));
}

/// A grid that holds a row `[x, "Bogus"]` is not valid, whatever `x` is.
pub proof fn lemma_unknown_type_row_invalid(rows: Seq<Seq<Seq<char>>>, i: int, x: Seq<char>)
    requires
        0 <= i < rows.len(),
        rows[i] == seq![x, "Bogus"@],
    ensures
        !grid_valid(rows),
{
    reveal_strlit("Bogus");
    reveal_strlit("Text");
    reveal_strlit("Integer");
    reveal_strlit("Real");
    assert("Bogus"@[0] != "Text"@[0]);
    assert("Bogus"@ != "Integer"@);
    assert("Bogus"@ != "Real"@);
    assert(!row_valid(rows[i]));
}

/// A table definition under edit: its name, its header, a grid of cells with a
/// cursor, and a buffer in which the next value of a cell is composed.
pub struct TableData {
    name: String,
    header: Vec<String>,
    rows: Vec<Vec<String>>,
    row: usize,
    column: usize,
    buffer: String,
}

impl View for TableData {
    type V = TableView;

    closed spec fn view(&self) -> TableView {
        TableView {
            name: self.name@,
            header: strings_view(self.header@),
            grid: GridView {
                rows: grid_view(self.rows@),
                row: self.row as int,
                column: self.column as int,
                buffer: self.buffer@,
            },
        }
    }
}

/// Copies a sequence of strings.
fn copy_strings(v: &Vec<String>) -> (r: Vec<String>)
    ensures
        strings_view(r@) == strings_view(v@),
{
    let mut r: Vec<String> = Vec::new();
    let mut i: usize = 0;
    while i < v.len()
        invariant
            i <= v@.len(),
            r@.len() == i,
            forall|k: int| 0 <= k < i ==> (#[trigger] r@[k])@ == v@[k]@,
        decreases v@.len() - i,
    {
        r.push(v[i].clone());
        i += 1;
    }
    assert(strings_view(r@) =~= strings_view(v@));
    r
}

impl TableData {
    /// A table named `name` with columns `header`, whose grid is one row of empty
    /// cells, one per column, with the cursor on its first cell and an empty buffer.
    pub fn from(name: &String, header: &Vec<String>) -> (r: Self)
        ensures
            r@.name == name@,
            r@.header == strings_view(header@),
            r@.grid.rows == seq![Seq::new(header@.len(), |i: int| Seq::<char>::empty())],
            r@.grid.row == 0,
            r@.grid.column == 0,
            r@.grid.buffer.len() == 0,
            grid_wf(r@.grid),
    {
        let mut rows: Vec<Vec<String>> = Vec::with_capacity(10);
        let mut first: Vec<String> = Vec::with_capacity(header.len());
        let mut i: usize = 0;
        while i < header.len()
            invariant
                i <= header@.len(),
                first@.len() == i,
                forall|k: int| 0 <= k < i ==> (#[trigger] first@[k])@ == Seq::<char>::empty(),
            decreases header@.len() - i,
        {
            first.push(String::new());
            i += 1;
        }
        assert(strings_view(first@) =~= Seq::new(header@.len(), |k: int| Seq::<char>::empty()));
        rows.push(first);
        let r = TableData {
            name: name.clone(),
            header: copy_strings(header),
            rows: rows,
            row: 0,
            column: 0,
            buffer: String::new(),
        };
        assert(grid_view(r.rows@) =~= seq![Seq::new(header@.len(), |i: int| Seq::<char>::empty())]);
        r
    }

    pub fn name_ref(&self) -> (r: &str)
        ensures
            r@ == self@.name,
    {
        self.name.as_str()
    }

    pub fn header(&self) -> (r: &Vec<String>)
        ensures
            strings_view(r@) == self@.header,
    {
        &self.header
    }

    pub fn rows(&self) -> (r: &Vec<Vec<String>>)
        ensures
            grid_view(r@) == self@.grid.rows,
    {
        &self.rows
    }

    pub fn row(&self) -> (r: usize)
        ensures
            r == self@.grid.row,
    {
        self.row
    }

    pub fn column(&self) -> (r: usize)
        ensures
            r == self@.grid.column,
    {
        self.column
    }

    pub fn buffer_ref(&self) -> (r: &str)
        ensures
            r@ == self@.grid.buffer,
    {
        self.buffer.as_str()
    }

    /// Applies one command; name and header never change.
    pub fn handle_input(&mut self, code: &Command)
        ensures
            final(self)@.name == old(self)@.name,
            final(self)@.header == old(self)@.header,
            final(self)@.grid == step(old(self)@.grid, *code),
            grid_wf(old(self)@.grid) ==> grid_wf(final(self)@.grid),
    {
        proof {
            if grid_wf(self@.grid) {
                lemma_step_keeps_wf(self@.grid, *code);
            }
        }
        match code {
            Command::Validate => {
                if Self::validate_rows(&self.rows) {
                    self.buffer = "Yes".to_owned();
                } else {
                    self.buffer = "No".to_owned();
                }
            },
            _ => {
                handle_add_table_input(
                    code,
                    &mut self.buffer,
                    &mut self.rows,
                    &mut self.row,
                    &mut self.column,
                );
            },
        }
    }

    /// Whether all rows of `rows` are as wide as the first, and every row names a type
    /// in its second cell and holds, in its first cell, a value of that type; false
    /// for no rows.
    pub fn validate_rows(rows: &Vec<Vec<String>>) -> (r: bool)
        ensures
            r == grid_valid(grid_view(rows@)),
    {
        let ghost g = grid_view(rows@);
        if rows.len() < 1 {
            return false;
        }
        let mut i: usize = 0;
        while i < rows.len()
            invariant
                i <= rows@.len(),
                g == grid_view(rows@),
                forall|k: int| 0 <= k < i ==> row_valid(#[trigger] g[k]),
                forall|k: int| 0 <= k < i ==> (#[trigger] g[k]).len() == g[0].len(),
                rows@.len() >= 1,
            decreases rows@.len() - i,
        {
            let line = &rows[i];
            assert(g[i as int] == strings_view(line@));
            assert(g[0] == strings_view(rows@[0]@));
            if line.len() != rows[0].len() {
                return false;
            }
            if line.len() < 2 {
                return false;
            }
            let cell_type = CellType::from(line[1].as_str());
            if cell_type == CellType::Empty {
                return false;
            }
            if !cell_type.content_is_good(line[0].as_str()) {
                return false;
            }
            i += 1;
        }
        true
    }
}

} // verus!
