//! Format-independent comparison bundles: canonical models kept together with
//! their semantic diff, so renderers can show both revisions without parsing
//! native files again.

use vstd::prelude::*;

use crate::diff::pcb::pcb_changes;
use crate::diff::types::spec_report;
use crate::diff::{diff_pcb, DiffReport};
use crate::model::pcb::Pcb;

verus! {

#[derive(Clone, Debug)]
pub struct PcbComparison {
    pub before: Pcb,
    pub after: Pcb,
    pub diff: DiffReport,
}

impl PcbComparison {
    /// Bundles two revisions of a board with their diff.
    pub fn new(before: Pcb, after: Pcb) -> (comparison: PcbComparison)
        ensures
            comparison.before == before,
            comparison.after == after,
            comparison.diff@ == spec_report(pcb_changes(before@, after@)),
    {
        let diff = diff_pcb(&before, &after);
        PcbComparison { before, after, diff }
    }
}

} // verus!
