//! Verified core of the factory planning toolkit: the item/facility catalog and its
//! builder, sparse per-item tables, catalog loading from parsed records, recipe
//! conversion, and report text helpers.

pub mod text;
pub mod order;
mod key_index;
pub mod catalog;
pub mod item_map;
pub mod inputs;
pub mod report;
pub mod convert;
pub mod load;

pub use catalog::{
    Catalog, CatalogBuildError, CatalogBuilder, FacilityDef, FacilityId, FacilityKind, ItemDef,
    ItemId, P_CORE_W, PowerRecipe, Recipe, Stack,
};
pub use inputs::{AicInputs, OutpostInput};
pub use item_map::ItemU32Map;
