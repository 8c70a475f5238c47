//! Range checks on numbers read from legacy inputs.

use vstd::prelude::*;
use crate::convert::error::{ConvertError, SchemaFile};
use crate::convert::model::V1Recipe;
use crate::text::{decimal, push_decimal, push_signed_decimal, signed_decimal};

verus! {

/// The message for a value below one.
pub open spec fn not_positive_text(field: Seq<char>, value: int) -> Seq<char> {
    field + " must be >= 1, got "@ + signed_decimal(value)
}

/// The message for a value above `u32::MAX`.
pub open spec fn out_of_range_text(field: Seq<char>, value: int) -> Seq<char> {
    field + " out of range for u32: "@ + signed_decimal(value)
}

/// The message for a value outside `1..=u32::MAX`.
pub open spec fn range_error_text(field: Seq<char>, value: int) -> Seq<char> {
    if value < 1 {
        not_positive_text(field, value)
    } else {
        out_of_range_text(field, value)
    }
}

/// Accepts `value` when it is between 1 and `u32::MAX`; otherwise reports a schema
/// error in `file` that names `field` and the value.
pub fn parse_positive_u32(file: SchemaFile, field: String, value: i64) -> (r: Result<u32, ConvertError>)
    ensures
        1 <= value <= u32::MAX ==> r == Ok::<u32, ConvertError>(value as u32),
        value < 1 ==> (r matches Err(ConvertError::Schema { file: f, message: m }) && f == file
            && m@ == not_positive_text(field@, value as int)),
        value > u32::MAX ==> (r matches Err(ConvertError::Schema { file: f, message: m }) && f == file
            && m@ == out_of_range_text(field@, value as int)),
{
    if value < 1 {
        let mut message = field;
        message.append(" must be >= 1, got ");
        push_signed_decimal(&mut message, value);
        return Err(ConvertError::Schema { file, message });
    }
    if value > 4294967295i64 {
        let mut message = field;
        message.append(" out of range for u32: ");
        push_signed_decimal(&mut message, value);
        return Err(ConvertError::Schema { file, message });
    }
    Ok(value as u32)
}

/// The message for recipe `index` (counted from one) with no ingredients or no
/// products.
pub open spec fn empty_lists_text(index: nat) -> Seq<char> {
    "recipe["@ + decimal(index) + "] has empty ingredient/product list"@
}

/// Accepts a recipe read at position `index` (counted from one) when it has at least
/// one ingredient and at least one product.
pub fn check_recipe_lists(index: u64, recipe: &V1Recipe) -> (r: Result<(), ConvertError>)
    ensures
        r is Ok <==> (recipe.ingredients@.len() > 0 && recipe.products@.len() > 0),
        r matches Err(e) ==> (e matches ConvertError::Schema { file, message } && file == SchemaFile::Recipes
            && message@ == empty_lists_text(index as nat)),
{
    if recipe.ingredients.len() == 0 || recipe.products.len() == 0 {
        let mut message = String::from_str("recipe[");
        push_decimal(&mut message, index);
        message.append("] has empty ingredient/product list");
        return Err(ConvertError::Schema { file: SchemaFile::Recipes, message });
    }
    Ok(())
}

/// Accepts the recipes read from a directory when there is at least one.
pub fn check_recipes_loaded(recipes: &Vec<V1Recipe>) -> (r: Result<(), ConvertError>)
    ensures
        r is Ok <==> recipes@.len() > 0,
        r matches Err(e) ==> (e matches ConvertError::Schema { file, message } && file == SchemaFile::Recipes
            && message@ == "no recipes loaded"@),
{
    if recipes.len() == 0 {
        return Err(ConvertError::Schema {
            file: SchemaFile::Recipes,
            message: String::from_str("no recipes loaded"),
        });
    }
    Ok(())
}

} // verus!
