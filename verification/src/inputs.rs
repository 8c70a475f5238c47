//! Scenario inputs consumed by optimization.

use vstd::prelude::*;
use crate::item_map::ItemU32Map;

verus! {

/// One outpost demand/cap configuration.
#[derive(Debug, Clone)]
pub struct OutpostInput {
    pub key: String,
    pub en: Option<String>,
    pub zh: Option<String>,
    pub money_cap_per_hour: u32,
    /// Sparse per-item price table.
    pub prices: ItemU32Map,
}

/// Full scenario inputs consumed by optimization.
#[derive(Debug, Clone)]
pub struct AicInputs {
    pub external_power_consumption_w: u32,
    /// Sparse per-item external supply table.
    pub supply_per_min: ItemU32Map,
    pub outposts: Vec<OutpostInput>,
}

} // verus!
