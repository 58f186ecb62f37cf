//! Strips the execute permission bits from regular files, leaving alone what
//! looks like a program: an ELF binary or a script with an interpreter line.
//!
//! The library holds the decisions of a run; it performs no I/O itself.

pub mod classify;
pub mod conduct;
pub mod error;
pub mod exchange;
pub mod laws;
pub mod model;
pub mod perms;
pub mod settings;
pub mod walk;

pub use crate::error::Error;
pub use crate::settings::Settings;
pub use crate::walk::{degreen_dir, degreen_file, run};
