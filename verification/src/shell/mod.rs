//! The user's shell: recognising it, and putting the launcher directory on
//! its `PATH`.

pub mod detect;
pub mod integration;
