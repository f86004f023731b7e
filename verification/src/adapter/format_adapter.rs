//! The format-adapter boundary: every supported EDA format converts native
//! files into the canonical model through this trait.

use vstd::prelude::*;

use super::error::{result_view, AdapterError, SpecAdapterError};
use crate::model::pcb::{Pcb, SpecPcb};
use crate::model::schematic::{Schematic, SpecSchematic};

verus! {

pub trait FormatAdapter {
    /// The identifier of the format.
    spec fn spec_id(&self) -> Seq<char>;

    /// The adapter reads files at `path`.
    spec fn spec_supports_path(&self, path: Seq<char>) -> bool;

    /// The board that the adapter reads from `source`, or its error.
    spec fn spec_parse_pcb(&self, source: Seq<char>, path: Seq<char>) -> Result<
        SpecPcb,
        SpecAdapterError,
    >;

    /// The schematic that the adapter reads from `source`, or its error.
    spec fn spec_parse_schematic(&self, source: Seq<char>, path: Seq<char>) -> Result<
        SpecSchematic,
        SpecAdapterError,
    >;

    fn id(&self) -> (r: &'static str)
        ensures
            r@ == self.spec_id(),
    ;

    fn supports_path(&self, path: &str) -> (r: bool)
        ensures
            r == self.spec_supports_path(path@),
    ;

    fn parse_pcb(&self, source: &str, path: &str) -> (r: Result<Pcb, AdapterError>)
        ensures
            result_view(r) == self.spec_parse_pcb(source@, path@),
    ;

    fn parse_schematic(&self, source: &str, path: &str) -> (r: Result<Schematic, AdapterError>)
        ensures
            result_view(r) == self.spec_parse_schematic(source@, path@),
    ;
}

} // verus!
