//! Canonical EDA model. All format adapters convert native files into these
//! shared structures; diffing depends on this module rather than on formats.

pub mod common;
pub mod pcb;
pub mod project;
pub mod schematic;
pub mod source;

pub use project::EdaProject;
