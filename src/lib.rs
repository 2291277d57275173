//! Cleaning, classification and dual-language merging of subtitle tracks.

pub mod classify;
pub mod command;
pub mod clean;
pub mod codec;
pub mod event;
pub mod merge;
pub mod pipeline;
pub mod text;
mod tally;
pub mod track;
