//! Completion tracking for a self-terminating file server.
//!
//! The server hands out the files of one directory and stops once every file
//! has been asked for at least once. This crate holds the part that decides:
//! the record of files still outstanding, the naming of a file from a request
//! path, and the supervisor that chooses when to stop.

pub mod filename;
pub mod interceptor;
pub mod manifest;
pub mod pending;
pub mod settings;
pub mod supervisor;
pub mod tracker;
