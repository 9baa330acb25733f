pub mod display;
pub mod emoji;
pub mod input;
pub mod session;
pub mod theme;
pub mod tui;
