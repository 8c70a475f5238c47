//! Errors of loading a catalog from its records.

use vstd::prelude::*;
use crate::catalog::CatalogBuildError;

verus! {

/// Where a record stands in its data file: the byte range `start..end` of its text.
#[derive(Debug, Clone, Copy, PartialEq, Eq, Structural)]
pub struct Span {
    pub start: usize,
    pub end: usize,
}

/// Why a catalog could not be built from its records.
#[derive(Debug)]
pub enum LoadError {
    /// The item at `index` was refused by the builder.
    Item { index: usize, source: CatalogBuildError, span: Span },
    /// The machine at `index` was refused by the builder.
    Machine { index: usize, source: CatalogBuildError, span: Span },
    /// The thermal bank was refused by the builder.
    ThermalBank { source: CatalogBuildError, span: Span },
    /// A recipe names a facility key that is not in the catalog; `span` is the recipe's.
    UnknownFacility { key: String, span: Span },
    /// A stack names an item key that is not in the catalog; `span` is the stack's.
    UnknownItem { key: String, span: Span },
    /// A number is not a positive `u32`; `field` names the list and field, `index` the
    /// entry's position in its list, and `span` the record that holds the number.
    InvalidNumber { field: &'static str, index: usize, value: i64, span: Span },
}

} // verus!
