//! Importing media from removable devices into a predictable archive layout:
//! the rules that name archive folders, validate settings, pick media files,
//! account for a copy run, describe devices and drive the terminal screens.
pub mod text;
pub mod types;
pub mod errors;
pub mod config;
pub mod datetime;
pub mod archive;
pub mod paths;
pub mod copy;
pub mod discovery;
pub mod ui;
pub mod browser;
pub mod state;
