use vstd::prelude::*;

use crate::command::Command;
use crate::input_handler::{handle_table_list_input, list_direction};
use crate::selector::{next_index, SelectorError};
use crate::table_data::strings_view;

verus! {

/// What a catalog holds: the names of the tables and which one is selected.
pub struct CatalogView {
    pub names: Seq<Seq<char>>,
    pub selected: Option<int>,
}

/// A selection exists exactly when there are names, and it lies among them.
pub open spec fn catalog_wf(c: CatalogView) -> bool {
    &&& (c.selected is Some <==> c.names.len() > 0)
    &&& c.selected is Some ==> 0 <= c.selected->Some_0 < c.names.len()
}

/// An ordered list of table names with a circular selection over it.
pub struct TableCatalog {
    names: Vec<String>,
    selected: Option<usize>,
}

impl View for TableCatalog {
    type V = CatalogView;

    closed spec fn view(&self) -> CatalogView {
        CatalogView {
            names: strings_view(self.names@),
            selected: match self.selected {
                Some(i) => Some(i as int),
                None => None,
            },
        }
    }
}

impl TableCatalog {
    /// A catalog of `names`, with the first selected if there is one.
    pub fn new(names: Vec<String>) -> (r: Self)
        ensures
            r@.names == strings_view(names@),
            r@.selected == (if names@.len() > 0 { Some(0int) } else { None }),
            catalog_wf(r@),
    {
        let selected = if names.len() > 0 { Some(0) } else { None };
        TableCatalog { names, selected }
    }

    pub fn names(&self) -> (r: &Vec<String>)
        ensures
            strings_view(r@) == self@.names,
    {
        &self.names
    }

    pub fn selected(&self) -> (r: Option<usize>)
        ensures
            r is Some <==> self@.selected is Some,
            r is Some ==> r->Some_0 as int == self@.selected->Some_0,
    {
        self.selected
    }

    /// Moves the selection for `MoveUp` and `MoveDown`; other commands change nothing.
    pub fn handle_input(&mut self, code: &Command) -> (r: Result<(), SelectorError>)
        ensures
            final(self)@.names == old(self)@.names,
            catalog_wf(old(self)@) ==> catalog_wf(final(self)@),
            list_direction(*code) is None ==> r is Ok && final(self)@ == old(self)@,
            list_direction(*code) is Some && old(self)@.names.len() == 0 ==> r == Err::<
                (),
                SelectorError,
            >(SelectorError::EmptyCollection) && final(self)@ == old(self)@,
            list_direction(*code) is Some && old(self)@.names.len() > 0 && old(self)@.selected is None
                ==> r == Err::<(), SelectorError>(SelectorError::NoSelection) && final(self)@ == old(
                self,
            )@,
            list_direction(*code) is Some && old(self)@.names.len() > 0 && old(self)@.selected is Some
                ==> r is Ok && final(self)@.selected == Some(
                next_index(
                    old(self)@.selected->Some_0,
                    old(self)@.names.len() as int,
                    list_direction(*code)->Some_0,
                ),
            ),
    {
        let length = self.names.len();
        let r = handle_table_list_input(code, &mut self.selected, length);
        proof {
            if list_direction(*code) is Some && length > 0 && old(self).selected is Some {
                vstd::arithmetic::div_mod::lemma_mod_bound(
                    old(self).selected->Some_0 as int + 1,
                    length as int,
                );
            }
        }
        r
    }

    /// The name of the selected table, which the caller goes on to open.
    pub fn commit_selection(&self) -> (r: Result<String, SelectorError>)
        ensures
            self@.names.len() == 0 ==> r == Err::<String, SelectorError>(
                SelectorError::EmptyCollection,
            ),
            self@.names.len() > 0 && catalog_wf(self@) ==> r is Ok && r->Ok_0@
                == self@.names[self@.selected->Some_0],
            self@.names.len() > 0 && !catalog_wf(self@) ==> r == Err::<String, SelectorError>(
                SelectorError::NoSelection,
            ),
    {
        if self.names.len() == 0 {
            return Err(SelectorError::EmptyCollection);
        }
        match self.selected {
            Some(i) => {
                if i < self.names.len() {
                    Ok(self.names[i].clone())
                } else {
                    Err(SelectorError::NoSelection)
                }
            },
            None => Err(SelectorError::NoSelection),
        }
    }
}

} // verus!
