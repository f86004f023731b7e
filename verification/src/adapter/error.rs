//! Adapter error types for native EDA file conversion.

use vstd::prelude::*;

verus! {

/// A structured failure of a format adapter, with its message.
#[derive(Clone, Debug)]
pub enum AdapterError {
    UnsupportedFormat(String),
    InvalidSyntax(String),
    MissingField(String),
}

/// What an `AdapterError` says.
pub enum SpecAdapterError {
    UnsupportedFormat(Seq<char>),
    InvalidSyntax(Seq<char>),
    MissingField(Seq<char>),
}

impl View for AdapterError {
    type V = SpecAdapterError;

    open spec fn view(&self) -> SpecAdapterError {
        match self {
            AdapterError::UnsupportedFormat(m) => SpecAdapterError::UnsupportedFormat(m@),
            AdapterError::InvalidSyntax(m) => SpecAdapterError::InvalidSyntax(m@),
            AdapterError::MissingField(m) => SpecAdapterError::MissingField(m@),
        }
    }
}

impl SpecAdapterError {
    pub open spec fn message(self) -> Seq<char> {
        match self {
            SpecAdapterError::UnsupportedFormat(m) => m,
            SpecAdapterError::InvalidSyntax(m) => m,
            SpecAdapterError::MissingField(m) => m,
        }
    }
}

impl AdapterError {
    /// The human-readable message of the error (what it displays as).
    pub fn message(&self) -> (m: String)
        ensures
            m@ == self@.message(),
    {
        match self {
            AdapterError::UnsupportedFormat(m) => m.clone(),
            AdapterError::InvalidSyntax(m) => m.clone(),
            AdapterError::MissingField(m) => m.clone(),
        }
    }
}

impl PartialEq for AdapterError {
    fn eq(&self, other: &AdapterError) -> (r: bool) {
        match (self, other) {
            (AdapterError::UnsupportedFormat(a), AdapterError::UnsupportedFormat(b)) => *a == *b,
            (AdapterError::InvalidSyntax(a), AdapterError::InvalidSyntax(b)) => *a == *b,
            (AdapterError::MissingField(a), AdapterError::MissingField(b)) => *a == *b,
            _ => false,
        }
    }
}

impl vstd::std_specs::cmp::PartialEqSpecImpl for AdapterError {
    open spec fn obeys_eq_spec() -> bool {
        true
    }

    open spec fn eq_spec(&self, other: &AdapterError) -> bool {
        self@ == other@
    }
}

impl Eq for AdapterError {

}

/// The view of an adapter result.
pub open spec fn result_view<T: View>(r: Result<T, AdapterError>) -> Result<T::V, SpecAdapterError> {
    match r {
        Ok(v) => Ok(v@),
        Err(e) => Err(e@),
    }
}

} // verus!
