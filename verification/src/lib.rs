//! Prompt-segment detector for the active NPM registry.
//!
//! Given the state of the working directory and the output of the
//! configuration tool, the library decides whether a registry segment is
//! relevant and, if so, builds a small styled module: a symbol segment
//! followed by the registry host. Every failure along the way (no marker
//! file, no tool output, no matching line, no parsable URL) collapses to
//! "no module", never to an error.

pub mod detect;
pub mod host;
pub mod registry;
pub mod segment;
