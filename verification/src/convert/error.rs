//! Errors of the recipe conversion.

use vstd::prelude::*;

verus! {

/// The input a schema violation was found in.
#[derive(Debug, Clone, Copy, PartialEq, Eq, Structural)]
pub enum SchemaFile {
    /// The legacy recipe scripts.
    Recipes,
    /// The facility power table.
    FacilityPower,
}

/// Errors raised while converting legacy recipes into catalog tables.
#[derive(Debug)]
pub enum ConvertError {
    /// A value broke the input schema.
    Schema { file: SchemaFile, message: String },
    /// No Chinese name is known for an item or facility.
    MissingI18n { kind: &'static str, key: String },
    /// The facility power table has no entry for a facility.
    MissingFacilityPower { facility: String },
}

} // verus!
