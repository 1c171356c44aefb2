//! Files: how they are opened, read and written, and what is known of them.

pub mod dirs;
pub mod file;
pub mod metadata;
pub mod open_options;
pub mod paths;
