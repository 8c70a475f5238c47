//! Records read from legacy recipe scripts, and the catalog tables made from them.

use vstd::prelude::*;

verus! {

/// One `(item, count)` entry of a legacy recipe.
#[derive(Debug, Clone)]
pub struct V1Stack {
    pub item: String,
    pub count: i64,
}

/// One legacy recipe.
#[derive(Debug, Clone)]
pub struct V1Recipe {
    pub ingredients: Vec<V1Stack>,
    pub products: Vec<V1Stack>,
    pub facility: String,
    pub time_s: u32,
}

/// Item table row.
#[derive(Debug, Clone)]
pub struct ItemToml {
    pub key: String,
    pub en: String,
    pub zh: String,
}

/// The item table.
#[derive(Debug, Clone)]
pub struct ItemsToml {
    pub items: Vec<ItemToml>,
}

/// Machine table row.
#[derive(Debug, Clone)]
pub struct MachineToml {
    pub key: String,
    pub power_w: u32,
    pub en: String,
    pub zh: String,
}

/// The thermal bank row.
#[derive(Debug, Clone)]
pub struct ThermalBankToml {
    pub key: String,
    pub en: String,
    pub zh: String,
}

/// The facility table.
#[derive(Debug, Clone)]
pub struct FacilitiesToml {
    pub machines: Vec<MachineToml>,
    pub thermal_bank: ThermalBankToml,
}

/// `(item, count)` entry of a recipe row.
#[derive(Debug, Clone)]
pub struct StackToml {
    pub item: String,
    pub count: u32,
}

/// Production recipe row.
#[derive(Debug, Clone)]
pub struct RecipeToml {
    pub facility: String,
    pub time_s: u32,
    pub ingredients: Vec<StackToml>,
    pub products: Vec<StackToml>,
}

/// Thermal-bank power recipe row.
#[derive(Debug, Clone)]
pub struct PowerRecipeToml {
    pub ingredient: StackToml,
    pub power_w: u32,
    pub time_s: u32,
}

/// The recipe table.
#[derive(Debug, Clone)]
pub struct RecipesToml {
    pub recipes: Vec<RecipeToml>,
    pub power_recipes: Vec<PowerRecipeToml>,
}

/// The three tables of one conversion run.
#[derive(Debug, Clone)]
pub struct ConvertedTables {
    pub items: ItemsToml,
    pub facilities: FacilitiesToml,
    pub recipes: RecipesToml,
}

/// Serialized output files generated from one conversion run.
#[derive(Debug, Clone)]
pub struct ConvertOutput {
    pub items_toml: String,
    pub facilities_toml: String,
    pub recipes_toml: String,
}

} // verus!
