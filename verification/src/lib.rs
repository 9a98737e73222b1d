//! Verified core of the pwm window manager: theme and colour handling,
//! keybinding tables and the text processing behind the status bar.

pub mod text;
pub mod table;
pub mod user_config;
pub mod config;
pub mod keybindings;
pub mod bar;
