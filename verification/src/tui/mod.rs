//! The decisions of the terminal interface, apart from its drawing.

pub mod app;
pub mod cache;
pub mod edit;
pub mod form;
pub mod get_key;
pub mod input;
pub mod navigation;
pub mod select;
