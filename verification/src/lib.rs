//! Syncr: keeps copies of project folders in sync with a destination folder.
//!
//! The library holds the rules of the program: how command lines are
//! dispatched, how paths are normalised and re-rooted, how glob skip lists
//! are built and combined, how a directory walk decides what to yield, how
//! project folders are classified by heuristics, how sync projects are
//! named, found and removed, and what the program prints.

pub mod util;
pub mod fs;
pub mod glob;
pub mod config;
pub mod dir_tree;
pub mod project;
pub mod init;
pub mod sync;
pub mod args;
pub mod report;
pub mod help;
