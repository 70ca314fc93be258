//! Integrity sweep for WAV files: which entries of a directory tree are
//! candidates, whether a candidate's bytes decode in full, and where a file
//! that does not decode is to be copied.

pub mod integrity;
pub mod path;
pub mod plan;
pub mod sweep;
pub mod wav;
