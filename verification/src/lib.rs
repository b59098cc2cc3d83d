pub mod bot;
pub mod clock;
pub mod config;
pub mod file_scanner;
pub mod state;
pub mod text;
