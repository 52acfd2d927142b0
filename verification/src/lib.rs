//! Change statistics for git diffs, grouped by dimension.
pub mod classify;
pub mod cli;
pub mod collect;
pub mod diff;
pub mod html;
pub mod laws;
pub mod pathmap;
pub mod term;
pub mod text;
