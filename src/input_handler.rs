use vstd::prelude::*;

use crate::command::Command;
use crate::selector::{advance, next_index, Direction, SelectorError};
use crate::table_data::{edit, grid_view, strings_view, GridView};

verus! {

/// Relies on `String::push`: appends one character.
#[verifier::external_body]
fn push_char(s: &mut String, c: char)
    ensures
        final(s)@ == old(s)@.push(c),
{
    s.push(c)
}

/// Relies on `String::pop`: removes the last character, if there is one.
#[verifier::external_body]
fn pop_char(s: &mut String)
    ensures
        old(s)@.len() > 0 ==> final(s)@ == old(s)@.drop_last(),
        old(s)@.len() == 0 ==> final(s)@ == old(s)@,
{
    s.pop();
}

/// Relies on `String::clear`: leaves the string empty.
#[verifier::external_body]
fn clear_text(s: &mut String)
    ensures
        final(s)@ == Seq::<char>::empty(),
{
    s.clear()
}

/// The direction in which a command moves the selection of a list, if it moves it.
pub open spec fn list_direction(c: Command) -> Option<Direction> {
    match c {
        Command::MoveUp => Some(Direction::Backward),
        Command::MoveDown => Some(Direction::Forward),
        _ => None,
    }
}

/// Moves the selection `state` of a list of `length` items circularly: up for
/// `MoveUp`, down for `MoveDown`. Other commands change nothing. A move fails,
/// changing nothing, on an empty list or when nothing is selected.
pub fn handle_table_list_input(code: &Command, state: &mut Option<usize>, length: usize) -> (r:
    Result<(), SelectorError>)
    ensures
        list_direction(*code) is None ==> r is Ok && *final(state) == *old(state),
        list_direction(*code) is Some && length == 0 ==> r == Err::<(), SelectorError>(
            SelectorError::EmptyCollection,
        ) && *final(state) == *old(state),
        list_direction(*code) is Some && length > 0 && *old(state) is None ==> r == Err::<
            (),
            SelectorError,
        >(SelectorError::NoSelection) && *final(state) == *old(state),
        list_direction(*code) is Some && length > 0 && *old(state) is Some ==> r is Ok
            && *final(state) is Some && (*final(state))->Some_0 as int == next_index(
            (*old(state))->Some_0 as int,
            length as int,
            list_direction(*code)->Some_0,
        ),
{
    let direction = match code {
        Command::MoveUp => Direction::Backward,
        Command::MoveDown => Direction::Forward,
        _ => {
            return Ok(());
        },
    };
    if length == 0 {
        return Err(SelectorError::EmptyCollection);
    }
    match *state {
        None => Err(SelectorError::NoSelection),
        Some(index) => {
            match advance(index, length, direction) {
                Ok(next) => {
                    *state = Some(next);
                    Ok(())
                },
                Err(e) => Err(e),
            }
        },
    }
}

/// Applies one editing command to a grid, its cursor and its edit buffer.
pub fn handle_add_table_input(
    code: &Command,
    buffer: &mut String,
    table: &mut Vec<Vec<String>>,
    row: &mut usize,
    column: &mut usize,
)
    ensures
        (GridView {
            rows: grid_view(final(table)@),
            row: *final(row) as int,
            column: *final(column) as int,
            buffer: final(buffer)@,
        }) == edit(
            (GridView {
                rows: grid_view(old(table)@),
                row: *old(row) as int,
                column: *old(column) as int,
                buffer: old(buffer)@,
            }),
            *code,
        ),
{
    let row_count: usize = table.len();
    let column_count: usize = if row_count > 0 { table[0].len() } else { 0 };
    match code {
        Command::Backspace => {
            pop_char(buffer);
        },
        Command::Commit => {
            if *row < row_count && *column < column_count && *column < table[*row].len() {
                let ghost before = table@;
                let content = buffer.clone();
                table[*row][*column] = content;
                clear_text(buffer);
                assert(table@.len() == before.len());
                assert(table@[*row as int]@ == before[*row as int]@.update(*column as int, content));
                assert(strings_view(table@[*row as int]@) =~= strings_view(before[*row as int]@).update(*column as int, content@));
                assert(forall|i: int| 0 <= i < before.len() && i != *row ==> table@[i] == before[i]);
                assert(grid_view(table@) =~= grid_view(before).update(
                    *row as int,
                    grid_view(before)[*row as int].update(*column as int, content@),
                ));
            }
        },
        Command::MoveUp => {
            if let Ok(r) = advance(*row, row_count, Direction::Backward) {
                *row = r;
            }
        },
        Command::MoveDown => {
            if let Ok(r) = advance(*row, row_count, Direction::Forward) {
                *row = r;
            }
        },
        Command::MoveLeft => {
            if let Ok(c) = advance(*column, column_count, Direction::Backward) {
                *column = c;
            }
        },
        Command::MoveRight => {
            if let Ok(c) = advance(*column, column_count, Direction::Forward) {
                *column = c;
            }
        },
        Command::AppendChar(ch) => {
            push_char(buffer, *ch);
        },
        _ => {},
    }
}

} // verus!
