//! Bindings support for USD: the table of basic value types and the
//! generator of their wrapper types and conversions, the initial load
//! policy of a stage, and the construction forms of asset paths.

pub mod asset_path;
pub mod basic_types;
pub mod stage;
