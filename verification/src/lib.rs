//! Recall: a page-based viewer for keyboard shortcuts.
//!
//! The crate holds the verified core of the application: the configuration
//! ingestion pipeline (a TOML document becomes a validated page/entry model),
//! the navigation state machine, and the layout engine that composes the
//! styled frame shown in the terminal.

pub mod app;
pub mod cli;
pub mod config;
pub mod events;
pub mod ui;
