//! The core of a directory-inspection tool.
//!
//! Its main part builds a textual snapshot of a project tree: the reports
//! of a walk are filtered (`walk`), optionally narrowed to source files
//! (`classify`), rendered under a byte budget (`assemble`, `snapshot`), and
//! handed to a chain of clipboard backends (`clipboard`). Beside it stand
//! the rules of the listings: sizes, ages and permissions (`utils`), icons
//! (`icons`), ordering (`sorting`), tree and table decisions (`display`),
//! data formats (`parser`), themes and configuration.
//!
//! Nothing here reads a file, walks a directory or touches a clipboard:
//! callers do that and hand over plain values.

pub mod assemble;
pub mod classify;
pub mod cli;
pub mod clipboard;
pub mod config;
pub mod display;
pub mod error;
pub mod icons;
pub mod parser;
pub mod paths;
pub mod snapshot;
pub mod sorting;
pub mod text;
pub mod themes;
pub mod utils;
pub mod walk;
