//! Format-independent semantic diff engine. Adapters convert native files into
//! the canonical model first; diffing operates only on canonical concepts.

pub mod coverage_laws;
pub mod laws;
pub mod matcher;
pub mod objects;
pub mod pcb;
pub mod report_laws;
pub mod schematic;
pub mod types;

pub use types::{
    ChangeKind, DiffReport, DiffSummary, FieldChange, FieldValue, MatchMethod, ObjectChange,
};
pub use pcb::diff_pcb;
pub use schematic::diff_schematic;
