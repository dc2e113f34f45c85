//! A desktop resource overlay: the configuration model, the rules that turn
//! raw system readings into displayed statistics, the CPU history buffer and
//! the overlay window's placement, each with its contract.

pub mod config;
pub mod history;
pub mod layout;
pub mod monitor;
pub mod text;
