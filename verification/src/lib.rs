//! A library for an interactive package-installation checklist: it parses a
//! Brewfile-style manifest into a deduplicated list of entries, drives the
//! selection / confirmation / results interaction as a state machine, and
//! decides, step by step, which package-manager commands an installation run
//! issues and how their outputs are classified.

pub mod executor;
pub mod render;
pub mod session;
pub mod manifest;
pub mod text;
