//! Catalog records as read from the catalog data files.

use vstd::prelude::*;
use crate::load::error::Span;
use crate::load::regions::Region;

verus! {

/// One item entry.
#[derive(Debug, Clone)]
pub struct ItemToml {
    pub key: String,
    pub en: String,
    pub zh: String,
    /// The item is a liquid.
    pub fluid: bool,
    /// The item is a gas.
    pub gas: bool,
    /// Where the record stands in its file.
    pub span: Span,
}

/// The items file.
#[derive(Debug, Clone)]
pub struct ItemsToml {
    pub items: Vec<ItemToml>,
}

/// One machine entry.
#[derive(Debug, Clone)]
pub struct MachineToml {
    pub key: String,
    pub power_w: i64,
    pub en: String,
    pub zh: String,
    /// The regions the machine is listed for; none listed means every region.
    pub regions: Vec<Region>,
    /// Where the record stands in its file.
    pub span: Span,
}

/// The thermal bank entry.
#[derive(Debug, Clone)]
pub struct ThermalBankToml {
    pub key: String,
    pub en: String,
    pub zh: String,
    /// Where the record stands in its file.
    pub span: Span,
}

/// The facilities file.
#[derive(Debug, Clone)]
pub struct FacilitiesToml {
    pub machines: Vec<MachineToml>,
    pub thermal_bank: ThermalBankToml,
}

/// One `(item key, count)` entry.
#[derive(Debug, Clone)]
pub struct StackToml {
    pub item: String,
    pub count: i64,
    /// Where the record stands in its file.
    pub span: Span,
}

/// One production recipe entry.
#[derive(Debug, Clone)]
pub struct RecipeToml {
    pub facility: String,
    pub time_s: i64,
    pub ingredients: Vec<StackToml>,
    pub products: Vec<StackToml>,
    /// Where the record stands in its file.
    pub span: Span,
}

/// One thermal-bank power recipe entry.
#[derive(Debug, Clone)]
pub struct PowerRecipeToml {
    pub ingredient: StackToml,
    pub power_w: i64,
    pub time_s: i64,
    /// Where the record stands in its file.
    pub span: Span,
}

/// The recipes file.
#[derive(Debug, Clone)]
pub struct RecipesToml {
    pub recipes: Vec<RecipeToml>,
    pub power_recipes: Vec<PowerRecipeToml>,
}

} // verus!
