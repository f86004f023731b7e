//! EDA format adapters: vendor-specific import behind one shared boundary.

pub mod error;
pub mod format_adapter;
pub mod kicad;
