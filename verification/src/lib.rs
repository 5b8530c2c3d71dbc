//! Batch file renaming by wildcard patterns.
//!
//! A source pattern such as `file-*.txt` is matched against filenames, each
//! `*` capturing a run of non-dot characters; the captures are then inserted
//! into a target template such as `file-#1-v1.txt` by 1-based position.

pub mod args;
pub mod chars;
pub mod config;
pub mod errors;
pub mod file_matcher;
pub mod file_move;
pub mod glob;
pub mod paths;
pub mod pattern;

pub use errors::MassMoveError;
