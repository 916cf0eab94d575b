pub mod dialog;
pub mod draw;
pub mod input;
pub mod listing;
pub mod path;
pub mod resources;
pub mod session;
pub mod text;
