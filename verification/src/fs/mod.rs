//! File-system path handling: turning what a user typed into the absolute path the file-system walk
//! resolves, and splitting such a path into its components.

pub mod fattime;
pub mod files;
pub mod path;
