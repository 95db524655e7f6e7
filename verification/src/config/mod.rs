//! The application's settings and the files that hold them.

pub mod files;
pub mod settings;
