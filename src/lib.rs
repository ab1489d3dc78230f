pub mod clock;
pub mod history;
pub mod hotkey;
pub mod interpreter;
pub mod text;
