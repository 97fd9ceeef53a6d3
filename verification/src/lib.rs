pub mod command;
pub mod listing;
pub mod package;
pub mod selector;
pub mod spinner;
pub mod text;
