//! Editing and validation of table definitions: a circular selector over a list
//! of tables, a classifier of declared cell types, and a grid editor with a
//! cursor and an edit buffer.

pub mod catalog;
pub mod cell_type;
pub mod command;
pub mod input_handler;
pub mod selector;
pub mod table_data;
