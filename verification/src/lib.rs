//! Shared core of EDA-Diff: the canonical EDA model, the KiCad format adapter,
//! and the format-independent semantic diff engine.

pub mod adapter;
pub mod compare;
pub mod diff;
pub mod model;

use vstd::prelude::*;

verus! {

/// The readiness message that the core reports to its host.
pub fn core_status() -> (status: String)
    ensures
        status@ == "EDA-Diff Rust core ready"@,
{
    String::from_str("EDA-Diff Rust core ready")
}

} // verus!
