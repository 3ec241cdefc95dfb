pub mod command;
pub mod document;
pub mod store;
pub mod text;
