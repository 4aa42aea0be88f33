pub mod text;
pub mod layout;
pub mod cfg;
pub mod state;
pub mod frame;
pub mod glyph;
pub mod daemon;
pub mod bus;
