use table_editor::catalog::TableCatalog;
use table_editor::command::{switch_view, Command};
use table_editor::input_handler::handle_table_list_input;
use table_editor::selector::{advance, Direction, SelectorError};

#[test]
fn advance_wraps_both_ways() {
    assert_eq!(advance(0, 3, Direction::Forward), Ok(1));
    assert_eq!(advance(2, 3, Direction::Forward), Ok(0));
    assert_eq!(advance(0, 3, Direction::Backward), Ok(2));
    assert_eq!(advance(2, 3, Direction::Backward), Ok(1));
    assert_eq!(advance(0, 1, Direction::Forward), Ok(0));
    assert_eq!(advance(0, 1, Direction::Backward), Ok(0));
}

#[test]
fn advance_forward_then_backward_restores() {
    for len in 1..6usize {
        for i in 0..len {
            let f = advance(i, len, Direction::Forward).unwrap();
            assert_eq!(advance(f, len, Direction::Backward), Ok(i));
        }
    }
}

#[test]
fn advance_len_times_returns_to_start() {
    for len in 1..6usize {
        for i in 0..len {
            for d in [Direction::Forward, Direction::Backward] {
                let mut j = i;
                for _ in 0..len {
                    j = advance(j, len, d).unwrap();
                }
                assert_eq!(j, i);
            }
        }
    }
}

#[test]
fn advance_on_empty_collection_fails() {
    for i in [0usize, 1, 7, usize::MAX] {
        assert_eq!(advance(i, 0, Direction::Forward), Err(SelectorError::EmptyCollection));
        assert_eq!(advance(i, 0, Direction::Backward), Err(SelectorError::EmptyCollection));
    }
}

#[test]
fn advance_at_the_largest_length() {
    assert_eq!(advance(usize::MAX - 1, usize::MAX, Direction::Forward), Ok(0));
    assert_eq!(advance(0, usize::MAX, Direction::Backward), Ok(usize::MAX - 1));
    assert_eq!(advance(usize::MAX, usize::MAX, Direction::Forward), Ok(1));
}

#[test]
fn list_input_moves_the_selection() {
    let mut state = Some(0usize);
    assert_eq!(handle_table_list_input(&Command::MoveUp, &mut state, 3), Ok(()));
    assert_eq!(state, Some(2));
    assert_eq!(handle_table_list_input(&Command::MoveDown, &mut state, 3), Ok(()));
    assert_eq!(state, Some(0));
    assert_eq!(handle_table_list_input(&Command::MoveDown, &mut state, 3), Ok(()));
    assert_eq!(state, Some(1));
    assert_eq!(handle_table_list_input(&Command::AppendChar('x'), &mut state, 3), Ok(()));
    assert_eq!(state, Some(1));
}

#[test]
fn list_input_errors() {
    let mut state = Some(0usize);
    assert_eq!(
        handle_table_list_input(&Command::MoveDown, &mut state, 0),
        Err(SelectorError::EmptyCollection)
    );
    assert_eq!(state, Some(0));
    let mut none: Option<usize> = None;
    assert_eq!(
        handle_table_list_input(&Command::MoveUp, &mut none, 2),
        Err(SelectorError::NoSelection)
    );
    assert_eq!(none, None);
}

#[test]
fn catalog_selects_and_commits() {
    let mut c = TableCatalog::new(vec!["a".to_string(), "b".to_string(), "c".to_string()]);
    assert_eq!(c.selected(), Some(0));
    assert_eq!(c.commit_selection(), Ok("a".to_string()));
    assert_eq!(c.handle_input(&Command::MoveUp), Ok(()));
    assert_eq!(c.selected(), Some(2));
    assert_eq!(c.commit_selection(), Ok("c".to_string()));
    assert_eq!(c.handle_input(&Command::MoveDown), Ok(()));
    assert_eq!(c.selected(), Some(0));
    assert_eq!(c.names().len(), 3);
}

#[test]
fn empty_catalog_has_no_selection() {
    let mut c = TableCatalog::new(Vec::new());
    assert_eq!(c.selected(), None);
    assert_eq!(c.handle_input(&Command::MoveDown), Err(SelectorError::EmptyCollection));
    assert_eq!(c.commit_selection(), Err(SelectorError::EmptyCollection));
}

#[test]
fn switch_view_accepts_only_existing_views() {
    assert_eq!(switch_view(0, 1, 4), 0);
    assert_eq!(switch_view(0, 3, 4), 2);
    assert_eq!(switch_view(2, 4, 4), 3);
    assert_eq!(switch_view(2, 5, 4), 2);
    assert_eq!(switch_view(1, 0, 4), 1);
}
