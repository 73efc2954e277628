//! Classification of a baseline color set by the truth values of a list of
//! properties: every combination of truth values gives one class, and the
//! classes with their sizes make up a text report.
pub mod classify;
pub mod codec;
pub mod colors;
pub mod partition;
pub mod report;
