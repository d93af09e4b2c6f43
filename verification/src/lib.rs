//! A modal text editor core and the connection/tree model of a database browser.
pub mod buffer;
pub mod chars;
pub mod command;
pub mod config;
pub mod conn_config;
pub mod db;
pub mod document;
pub mod editor;
pub mod event;
pub mod highlight;
pub mod history;
pub mod keymap;
pub mod movement;
pub mod renderer;
pub mod search;
pub mod selection;
pub mod rope;
pub mod text;
pub mod widgets;
pub mod transaction;
