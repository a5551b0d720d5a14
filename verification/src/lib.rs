//! The rules of a desktop launcher for DragonFable: its screens and what they
//! do with input, the game's logs and the window that shows them, save data
//! taken over from other launchers, and the look for newer releases.
//!
//! What touches the machine (windows, files, processes, the network, the
//! player) is left to the program around this library.

pub mod app;
pub mod autoclick;
pub mod config;
pub mod log;
pub mod log_markup;
pub mod log_mirror;
pub mod log_process;
pub mod log_ui;
pub mod log_window;
pub mod migration;
pub mod navigator;
pub mod panic_report;
pub mod player;
pub mod text;
pub mod ui;
pub mod update;
