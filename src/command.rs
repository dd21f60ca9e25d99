use vstd::prelude::*;

verus! {

/// An abstract editing command, as delivered by whatever reads the keyboard.
#[derive(Clone, Copy, Debug, PartialEq, Eq, Structural)]
pub enum Command {
    MoveUp,
    MoveDown,
    MoveLeft,
    MoveRight,
    AppendChar(char),
    Backspace,
    Commit,
    Validate,
    SelectCurrent,
    /// Switch to the view with this 1-based number.
    SwitchView(u8),
    Quit,
}

/// The view shown after a request to switch to view number `requested`, counted
/// from 1: that view if there is one, else `current`.
pub fn switch_view(current: usize, requested: u8, view_count: usize) -> (r: usize)
    ensures
        1 <= requested <= view_count ==> r == requested - 1,
        !(1 <= requested <= view_count) ==> r == current,
{
    if requested >= 1 && (requested as usize) <= view_count {
        (requested - 1) as usize
    } else {
        current
    }
}

} // verus!
