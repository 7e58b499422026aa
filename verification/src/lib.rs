//! A verified core for a music library scanner: recognising audio files by
//! extension, reading tag fields with well-defined defaults, choosing album
//! artwork by a fixed priority, and aggregating tracks into albums.

pub mod library;
pub mod scan;
pub mod seq_facts;
pub mod ui;
