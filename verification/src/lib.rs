//! Project-session launcher logic.
//!
//! Scans configured parent directories for project candidates, formats them
//! as labels for an interactive picker, and decides how to hand the chosen
//! project to a terminal multiplexer: every decision and transformation in
//! that pipeline is a verified function here, while process spawning,
//! filesystem reads and the interactive picker live outside the library.

pub mod format;
pub mod launch;
pub mod scan;
pub mod text;
