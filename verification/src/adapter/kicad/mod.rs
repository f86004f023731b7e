//! KiCad format adapter: all KiCad-specific parsing. The rest of the library
//! reaches it through the `FormatAdapter` boundary.

pub mod convert;
pub mod entry_laws;
pub mod identifier_laws;
pub mod laws;
pub mod native;
pub mod outline;
pub mod pad;
pub mod pcb;
pub mod reader;
pub mod schematic;
pub mod schematic_laws;
pub mod sexpr;
pub mod symbol;
pub mod tree_laws;

use vstd::prelude::*;

use crate::adapter::error::{AdapterError, SpecAdapterError};
use crate::adapter::format_adapter::FormatAdapter;
use crate::model::pcb::{Pcb, SpecPcb};
use crate::model::schematic::{Schematic, SpecSchematic};

verus! {

/// `text` ends with `suffix`.
pub open spec fn spec_ends_with(text: Seq<char>, suffix: Seq<char>) -> bool {
    suffix.len() <= text.len() && text.subrange(text.len() - suffix.len(), text.len() as int)
        == suffix
}

/// Whether `text` ends with `suffix`.
pub fn ends_with(text: &str, suffix: &str) -> (r: bool)
    ensures
        r == spec_ends_with(text@, suffix@),
{
    let n = text.unicode_len();
    let m = suffix.unicode_len();
    if m > n {
        return false;
    }
    let mut i: usize = 0;
    while i < m
        invariant
            i <= m <= n,
            n == text@.len(),
            m == suffix@.len(),
            forall|x: int| 0 <= x < i ==> text@[n - m + x] == suffix@[x],
        decreases m - i,
    {
        if text.get_char(n - m + i) != suffix.get_char(i) {
            assert(text@.subrange(n - m, n as int)[i as int] != suffix@[i as int]);
            return false;
        }
        i = i + 1;
    }
    assert(text@.subrange(n - m, n as int) =~= suffix@);
    true
}

/// The KiCad format adapter.
pub struct KiCadAdapter;

impl FormatAdapter for KiCadAdapter {
    open spec fn spec_id(&self) -> Seq<char> {
        "kicad"@
    }

    open spec fn spec_supports_path(&self, path: Seq<char>) -> bool {
        spec_ends_with(path, ".kicad_pcb"@) || spec_ends_with(path, ".kicad_sch"@)
    }

    open spec fn spec_parse_pcb(&self, source: Seq<char>, path: Seq<char>) -> Result<
        SpecPcb,
        SpecAdapterError,
    > {
        pcb::spec_parse_pcb(source, path)
    }

    open spec fn spec_parse_schematic(&self, source: Seq<char>, path: Seq<char>) -> Result<
        SpecSchematic,
        SpecAdapterError,
    > {
        schematic::spec_parse_schematic(source, path)
    }

    fn id(&self) -> (r: &'static str) {
        "kicad"
    }

    fn supports_path(&self, path: &str) -> (r: bool) {
        ends_with(path, ".kicad_pcb") || ends_with(path, ".kicad_sch")
    }

    fn parse_pcb(&self, source: &str, path: &str) -> (r: Result<Pcb, AdapterError>) {
        pcb::parse(source, path)
    }

    fn parse_schematic(&self, source: &str, path: &str) -> (r: Result<Schematic, AdapterError>) {
        schematic::parse(source, path)
    }
}

} // verus!
