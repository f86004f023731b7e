//! Source provenance attached to canonical EDA objects, so that normalized
//! objects keep their relationship to the native files they came from.

use vstd::prelude::*;

verus! {

#[derive(Clone, Copy, Debug, PartialEq, Eq, Structural)]
pub enum SourceFormat {
    KiCad,
    Eagle,
    Altium,
    Unknown,
}

#[derive(Clone, Debug)]
pub struct SourceRef {
    pub format: SourceFormat,
    pub file_path: String,
    pub native_id: Option<String>,
}

/// What a `SourceRef` says, with texts as character sequences.
pub struct SpecSourceRef {
    pub format: SourceFormat,
    pub file_path: Seq<char>,
    pub native_id: Option<Seq<char>>,
}

impl View for SourceRef {
    type V = SpecSourceRef;

    open spec fn view(&self) -> SpecSourceRef {
        SpecSourceRef {
            format: self.format,
            file_path: self.file_path@,
            native_id: self.native_id.deep_view(),
        }
    }
}

impl SourceRef {
    pub fn new(format: SourceFormat, file_path: &str) -> (r: SourceRef)
        ensures
            r@ == (SpecSourceRef { format, file_path: file_path@, native_id: None }),
    {
        SourceRef { format, file_path: String::from_str(file_path), native_id: None }
    }
}

} // verus!
