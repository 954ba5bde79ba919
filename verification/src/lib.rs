//! Scanning and cleaning of the cache directories that AI tools leave behind.
//!
//! The library holds the decisions of the cache cleaner: where each cache lives,
//! which entries of a cache directory are offered for deletion and under which
//! name, how sizes are totalled and shown, how a command line is dispatched,
//! and how the prompts are laid out. Reading the disk and talking to the
//! terminal is left to the program around it.

pub mod text;
pub mod display;
pub mod locations;
pub mod manifest;
pub mod scanner;
pub mod cleaner;
pub mod cli;
