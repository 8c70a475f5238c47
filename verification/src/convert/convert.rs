//! Conversion of legacy recipes into the item, facility and recipe tables.

use vstd::prelude::*;
use crate::convert::error::{ConvertError, SchemaFile};
use crate::convert::i18n::{facility_zh, facility_zh_spec, item_zh, item_zh_spec};
use crate::convert::model::{
    ConvertedTables, FacilitiesToml, ItemToml, ItemsToml, MachineToml, PowerRecipeToml, RecipeToml,
    RecipesToml, StackToml, ThermalBankToml, V1Recipe, V1Stack,
};
use crate::convert::validate::parse_positive_u32;
use crate::order::{
    SortKey, insert_sorted_unique, is_stable_sort_of, law_stable_sort_never_goes_down, lemma_lex_order,
    lex_less, lex_lt, stable_sort, string_views, strictly_increasing,
};
use crate::text::{concat_str, str_eq};

verus! {

/// A count that fits a positive `u32`.
pub open spec fn count_ok(c: i64) -> bool {
    1 <= c <= u32::MAX
}

/// The recipe runs in the thermal bank.
pub open spec fn is_thermal(r: V1Recipe) -> bool {
    r.facility@ == "Thermal Bank"@
}

/// A thermal bank recipe burns exactly one ingredient into exactly one `Power`
/// product, both with valid counts.
pub open spec fn thermal_recipe_ok(r: V1Recipe) -> bool {
    &&& r.ingredients@.len() == 1
    &&& r.products@.len() == 1
    &&& r.products@[0].item@ == "Power"@
    &&& count_ok(r.ingredients@[0].count)
    &&& count_ok(r.products@[0].count)
}

/// The schema message for the first rule a thermal bank recipe breaks.
pub open spec fn thermal_error_text(r: V1Recipe) -> Seq<char> {
    if r.ingredients@.len() != 1 {
        "thermal bank recipe must have exactly one ingredient"@
    } else if r.products@.len() != 1 {
        "thermal bank recipe must have exactly one product"@
    } else if r.products@[0].item@ != "Power"@ {
        "thermal bank recipe product must be `Power`, got `"@ + r.products@[0].item@ + "`"@
    } else if !count_ok(r.ingredients@[0].count) {
        crate::convert::validate::range_error_text(
            "thermal ingredient count for `"@ + r.ingredients@[0].item@ + "`"@,
            r.ingredients@[0].count as int,
        )
    } else {
        crate::convert::validate::range_error_text("thermal Power.count"@, r.products@[0].count as int)
    }
}

/// Turns a thermal bank recipe into its fuel stack and power output.
pub fn thermal_to_power(recipe: &V1Recipe) -> (r: Result<(StackToml, u32), ConvertError>)
    ensures
        thermal_recipe_ok(*recipe) ==> (r matches Ok(p) && p.0.item@ == recipe.ingredients@[0].item@
            && p.0.count == recipe.ingredients@[0].count && p.1 == recipe.products@[0].count),
        !thermal_recipe_ok(*recipe) ==> (r matches Err(ConvertError::Schema { file, message })
            && file == SchemaFile::Recipes && message@ == thermal_error_text(*recipe)),
{
    if recipe.ingredients.len() != 1 {
        return Err(ConvertError::Schema {
            file: SchemaFile::Recipes,
            message: String::from_str("thermal bank recipe must have exactly one ingredient"),
        });
    }
    if recipe.products.len() != 1 {
        return Err(ConvertError::Schema {
            file: SchemaFile::Recipes,
            message: String::from_str("thermal bank recipe must have exactly one product"),
        });
    }
    let power_product = &recipe.products[0];
    if !str_eq(power_product.item.as_str(), "Power") {
        let mut message = concat_str(
            "thermal bank recipe product must be `Power`, got `",
            power_product.item.as_str(),
        );
        message.append("`");
        return Err(ConvertError::Schema { file: SchemaFile::Recipes, message });
    }
    let ingredient = &recipe.ingredients[0];
    let mut field = concat_str("thermal ingredient count for `", ingredient.item.as_str());
    field.append("`");
    let ingredient_count = parse_positive_u32(SchemaFile::Recipes, field, ingredient.count)?;
    let power_w = parse_positive_u32(
        SchemaFile::Recipes,
        String::from_str("thermal Power.count"),
        power_product.count,
    )?;
    Ok((StackToml { item: ingredient.item.clone(), count: ingredient_count }, power_w))
}

/// Every count in `s` fits a positive `u32`.
pub open spec fn stacks_ok(s: Seq<V1Stack>) -> bool {
    forall|j: int| 0 <= j < s.len() ==> count_ok(#[trigger] s[j].count)
}

/// The recipe can be converted: a thermal bank recipe is well formed, and any other
/// recipe has valid counts.
pub open spec fn recipe_ok(r: V1Recipe) -> bool {
    if is_thermal(r) {
        thermal_recipe_ok(r)
    } else {
        stacks_ok(r.ingredients@) && stacks_ok(r.products@)
    }
}

/// The item names of some stacks.
pub open spec fn stack_items(s: Seq<V1Stack>) -> Set<Seq<char>> {
    s.map_values(|x: V1Stack| x.item@).to_set()
}

/// The item names a recipe contributes to the item table: the fuel of a thermal bank
/// recipe, or every ingredient and product of another recipe.
pub open spec fn recipe_items(r: V1Recipe) -> Set<Seq<char>> {
    if is_thermal(r) {
        if r.ingredients@.len() > 0 {
            set![r.ingredients@[0].item@]
        } else {
            Set::empty()
        }
    } else {
        stack_items(r.ingredients@) + stack_items(r.products@)
    }
}

/// The item names of all recipes.
pub open spec fn items_of(rs: Seq<V1Recipe>) -> Set<Seq<char>>
    decreases rs.len(),
{
    if rs.len() == 0 {
        Set::empty()
    } else {
        items_of(rs.drop_last()) + recipe_items(rs.last())
    }
}

/// The facility names of all recipes other than thermal bank recipes.
pub open spec fn machines_of(rs: Seq<V1Recipe>) -> Set<Seq<char>>
    decreases rs.len(),
{
    if rs.len() == 0 {
        Set::empty()
    } else if is_thermal(rs.last()) {
        machines_of(rs.drop_last())
    } else {
        machines_of(rs.drop_last()).insert(rs.last().facility@)
    }
}

/// The recipe does not run in the thermal bank.
pub open spec fn not_thermal() -> spec_fn(V1Recipe) -> bool {
    |r: V1Recipe| !is_thermal(r)
}

/// The recipe runs in the thermal bank.
pub open spec fn thermal() -> spec_fn(V1Recipe) -> bool {
    |r: V1Recipe| is_thermal(r)
}

/// `t` is the row for stack `s`.
pub open spec fn stack_row(s: V1Stack, t: StackToml) -> bool {
    t.item@ == s.item@ && t.count == s.count
}

/// `t` are the rows for stacks `s`, in order.
pub open spec fn stack_rows(s: Seq<V1Stack>, t: Seq<StackToml>) -> bool {
    t.len() == s.len() && forall|j: int| 0 <= j < s.len() ==> #[trigger] stack_row(s[j], t[j])
}

/// `t` is the production row for recipe `r`.
pub open spec fn recipe_row(r: V1Recipe, t: RecipeToml) -> bool {
    &&& t.facility@ == r.facility@
    &&& t.time_s == r.time_s
    &&& stack_rows(r.ingredients@, t.ingredients@)
    &&& stack_rows(r.products@, t.products@)
}

/// `t` is the power row for thermal bank recipe `r`.
pub open spec fn power_row(r: V1Recipe, t: PowerRecipeToml) -> bool {
    &&& stack_row(r.ingredients@[0], t.ingredient)
    &&& t.power_w == r.products@[0].count
    &&& t.time_s == r.time_s
}

/// `rows` are the production rows of the non-thermal recipes of `rs`, in order.
pub open spec fn recipe_rows_of(rs: Seq<V1Recipe>, rows: Seq<RecipeToml>) -> bool {
    let normal = rs.filter(not_thermal());
    rows.len() == normal.len() && forall|j: int| 0 <= j < rows.len() ==> #[trigger] recipe_row(normal[j], rows[j])
}

/// `rows` are the power rows of the thermal bank recipes of `rs`, in order.
pub open spec fn power_rows_of(rs: Seq<V1Recipe>, rows: Seq<PowerRecipeToml>) -> bool {
    let banks = rs.filter(thermal());
    rows.len() == banks.len() && forall|j: int| 0 <= j < rows.len() ==> #[trigger] power_row(banks[j], rows[j])
}

/// Appending to a sequence adds that element to its set of elements.
pub proof fn lemma_push_to_set<A>(s: Seq<A>, x: A)
    ensures
        s.push(x).to_set() == s.to_set().insert(x),
{
    assert forall|y: A| #[trigger] s.push(x).to_set().contains(y) implies s.to_set().insert(x).contains(y) by {
        if y != x {
            let k = choose|k: int| 0 <= k < s.push(x).len() && s.push(x)[k] == y;
            assert(s[k] == y);
        }
    }
    assert forall|y: A| #[trigger] s.to_set().insert(x).contains(y) implies s.push(x).to_set().contains(y) by {
        if y == x {
            assert(s.push(x)[s.len() as int] == x);
        } else {
            let k = choose|k: int| 0 <= k < s.len() && s[k] == y;
            assert(s.push(x)[k] == y);
        }
    }
    assert(s.push(x).to_set() =~= s.to_set().insert(x));
}

/// Stack `j` is the first of `s` whose count is invalid.
pub open spec fn first_bad_stack(s: Seq<V1Stack>, j: int) -> bool {
    &&& 0 <= j < s.len()
    &&& forall|q: int| 0 <= q < j ==> count_ok(#[trigger] s[q].count)
    &&& !count_ok(s[j].count)
}

/// The schema message for the first invalid count among `s`, whose field names begin
/// with `label`.
pub open spec fn stacks_error_text(label: Seq<char>, s: Seq<V1Stack>, m: Seq<char>) -> bool {
    exists|j: int|
        #[trigger] first_bad_stack(s, j) && m == crate::convert::validate::range_error_text(
            label + s[j].item@ + "`"@,
            s[j].count as int,
        )
}

/// Converts stacks into rows, adding their item names to `item_set`. `label` begins
/// the schema message for a bad count.
fn convert_stacks(stacks: &Vec<V1Stack>, item_set: &mut Vec<String>, label: &str) -> (r: Result<
    Vec<StackToml>,
    ConvertError,
>)
    requires
        strictly_increasing(string_views(old(item_set)@)),
    ensures
        stacks_ok(stacks@) ==> (r matches Ok(t) && stack_rows(stacks@, t@)
            && strictly_increasing(string_views(final(item_set)@))
            && string_views(final(item_set)@).to_set() == string_views(old(item_set)@).to_set()
            + stack_items(stacks@)),
        !stacks_ok(stacks@) ==> (r matches Err(ConvertError::Schema { file, message }) && file
            == SchemaFile::Recipes && stacks_error_text(label@, stacks@, message@)),
{
    let mut out: Vec<StackToml> = Vec::with_capacity(stacks.len());
    let ghost start = string_views(item_set@).to_set();
    let mut j: usize = 0;
    while j < stacks.len()
        invariant
            j <= stacks@.len(),
            strictly_increasing(string_views(item_set@)),
            forall|q: int| 0 <= q < j ==> count_ok(#[trigger] stacks@[q].count),
            stack_rows(stacks@.take(j as int), out@),
            string_views(item_set@).to_set() == start + stack_items(stacks@.take(j as int)),
        decreases stacks@.len() - j,
    {
        let stack = &stacks[j];
        let mut field = concat_str(label, stack.item.as_str());
        field.append("`");
        let count = match parse_positive_u32(SchemaFile::Recipes, field, stack.count) {
            Ok(c) => c,
            Err(e) => {
                assert(!count_ok(stacks@[j as int].count));
                assert(first_bad_stack(stacks@, j as int));
                return Err(e);
            },
        };
        let ghost before = string_views(item_set@).to_set();
        insert_sorted_unique(item_set, stack.item.clone());
        out.push(StackToml { item: stack.item.clone(), count });
        proof {
            let t1 = stacks@.take(j + 1);
            let t0 = stacks@.take(j as int);
            assert(t1.map_values(|x: V1Stack| x.item@) =~= t0.map_values(|x: V1Stack| x.item@).push(stacks@[j as int].item@));
            lemma_push_to_set(t0.map_values(|x: V1Stack| x.item@), stacks@[j as int].item@);
            assert(stack_items(t1) =~= stack_items(t0).insert(stacks@[j as int].item@));
            assert(string_views(item_set@).to_set() =~= start + stack_items(t1));
            assert forall|q: int| 0 <= q < t1.len() implies #[trigger] stack_row(t1[q], out@[q]) by {
                if q < j {
                    assert(t1[q] == t0[q]);
                }
            }
        }
        j = j + 1;
    }
    assert(stacks@.take(stacks@.len() as int) =~= stacks@);
    Ok(out)
}

/// Rows and name sets gathered from the recipes before sorting.
struct Collected {
    rows: Vec<RecipeToml>,
    power_rows: Vec<PowerRecipeToml>,
    items: Vec<String>,
    machines: Vec<String>,
}

/// Every recipe can be converted.
pub open spec fn all_recipes_ok(rs: Seq<V1Recipe>) -> bool {
    forall|i: int| 0 <= i < rs.len() ==> #[trigger] recipe_ok(rs[i])
}

/// The schema message for recipe `r`, which cannot be converted: the first rule a
/// thermal bank recipe breaks, or the first invalid count among the ingredients and
/// then the products of another recipe.
pub open spec fn recipe_error_text(r: V1Recipe, m: Seq<char>) -> bool {
    if is_thermal(r) {
        m == thermal_error_text(r)
    } else if !stacks_ok(r.ingredients@) {
        stacks_error_text("recipe ingredient count for item `"@, r.ingredients@, m)
    } else {
        stacks_error_text("recipe product count for item `"@, r.products@, m)
    }
}

/// Recipe `i` is the first of `rs` that cannot be converted.
pub open spec fn first_bad_recipe(rs: Seq<V1Recipe>, i: int) -> bool {
    &&& 0 <= i < rs.len()
    &&& forall|q: int| 0 <= q < i ==> #[trigger] recipe_ok(rs[q])
    &&& !recipe_ok(rs[i])
}

proof fn lemma_filter_step(rs: Seq<V1Recipe>, i: int, pred: spec_fn(V1Recipe) -> bool)
    requires
        0 <= i < rs.len(),
    ensures
        rs.take(i + 1).filter(pred) == if pred(rs[i]) {
            rs.take(i).filter(pred).push(rs[i])
        } else {
            rs.take(i).filter(pred)
        },
{
    reveal_with_fuel(Seq::<_>::filter, 1);
    assert(rs.take(i + 1).drop_last() =~= rs.take(i));
}

fn collect_rows(recipes: &Vec<V1Recipe>) -> (r: Result<Collected, ConvertError>)
    ensures
        all_recipes_ok(recipes@) ==> (r matches Ok(c) && recipe_rows_of(recipes@, c.rows@)
            && power_rows_of(recipes@, c.power_rows@) && strictly_increasing(string_views(c.items@))
            && string_views(c.items@).to_set() == items_of(recipes@) && strictly_increasing(
            string_views(c.machines@),
        ) && string_views(c.machines@).to_set() == machines_of(recipes@)),
        !all_recipes_ok(recipes@) ==> (r matches Err(ConvertError::Schema { file, message }) && file
            == SchemaFile::Recipes && exists|i: int| #[trigger] first_bad_recipe(recipes@, i)
            && recipe_error_text(recipes@[i], message@)),
{
    let mut rows: Vec<RecipeToml> = Vec::new();
    let mut power_rows: Vec<PowerRecipeToml> = Vec::new();
    let mut items: Vec<String> = Vec::new();
    let mut machines: Vec<String> = Vec::new();
    let ghost rs = recipes@;
    proof {
        reveal_with_fuel(Seq::<_>::filter, 1);
        assert(rs.take(0) =~= Seq::<V1Recipe>::empty());
        assert(string_views(items@).to_set() =~= Set::<Seq<char>>::empty());
        assert(string_views(machines@).to_set() =~= Set::<Seq<char>>::empty());
    }
    let mut i: usize = 0;
    while i < recipes.len()
        invariant
            rs == recipes@,
            i <= rs.len(),
            forall|q: int| 0 <= q < i ==> #[trigger] recipe_ok(rs[q]),
            recipe_rows_of(rs.take(i as int), rows@),
            power_rows_of(rs.take(i as int), power_rows@),
            strictly_increasing(string_views(items@)),
            string_views(items@).to_set() == items_of(rs.take(i as int)),
            strictly_increasing(string_views(machines@)),
            string_views(machines@).to_set() == machines_of(rs.take(i as int)),
        decreases rs.len() - i,
    {
        let recipe = &recipes[i];
        let ghost t0 = rs.take(i as int);
        let ghost t1 = rs.take(i + 1);
        proof {
            assert(t1.drop_last() =~= t0);
            assert(t1.last() == rs[i as int]);
            lemma_filter_step(rs, i as int, not_thermal());
            lemma_filter_step(rs, i as int, thermal());
        }
        if str_eq(recipe.facility.as_str(), "Thermal Bank") {
            let (ingredient, power_w) = match thermal_to_power(recipe) {
                Ok(p) => p,
                Err(e) => {
                    assert(!recipe_ok(rs[i as int]));
                    assert(first_bad_recipe(rs, i as int));
                    return Err(e);
                },
            };
            insert_sorted_unique(&mut items, ingredient.item.clone());
            power_rows.push(PowerRecipeToml { ingredient, power_w, time_s: recipe.time_s });
            proof {
                assert(recipe_items(rs[i as int]) =~= set![rs[i as int].ingredients@[0].item@]);
                assert(string_views(items@).to_set() =~= items_of(t1));
                let banks = t1.filter(thermal());
                assert forall|j: int| 0 <= j < power_rows@.len() implies #[trigger] power_row(banks[j], power_rows@[j]) by {
                    if j < power_rows@.len() - 1 {
                        assert(banks[j] == t0.filter(thermal())[j]);
                    }
                }
            }
        } else {
            insert_sorted_unique(&mut machines, recipe.facility.clone());
            let ingredients = match convert_stacks(&recipe.ingredients, &mut items, "recipe ingredient count for item `") {
                Ok(t) => t,
                Err(e) => {
                    assert(!recipe_ok(rs[i as int]));
                    assert(first_bad_recipe(rs, i as int));
                    return Err(e);
                },
            };
            let products = match convert_stacks(&recipe.products, &mut items, "recipe product count for item `") {
                Ok(t) => t,
                Err(e) => {
                    assert(!recipe_ok(rs[i as int]));
                    assert(first_bad_recipe(rs, i as int));
                    return Err(e);
                },
            };
            rows.push(RecipeToml {
                facility: recipe.facility.clone(),
                time_s: recipe.time_s,
                ingredients,
                products,
            });
            proof {
                assert(string_views(items@).to_set() =~= items_of(t1));
                assert(string_views(machines@).to_set() =~= machines_of(t1));
                let normal = t1.filter(not_thermal());
                assert forall|j: int| 0 <= j < rows@.len() implies #[trigger] recipe_row(normal[j], rows@[j]) by {
                    if j < rows@.len() - 1 {
                        assert(normal[j] == t0.filter(not_thermal())[j]);
                    }
                }
            }
        }
        i = i + 1;
    }
    assert(rs.take(rs.len() as int) =~= rs);
    Ok(Collected { rows, power_rows, items, machines })
}

/// Production rows are ordered by facility, then time, then number of ingredients,
/// then number of products.
impl SortKey for RecipeToml {
    open spec fn key_lt(&self, other: &Self) -> bool {
        lex_lt(self.facility@, other.facility@) || (self.facility@ == other.facility@ && (
        self.time_s < other.time_s || (self.time_s == other.time_s && (self.ingredients@.len()
            < other.ingredients@.len() || (self.ingredients@.len() == other.ingredients@.len()
            && self.products@.len() < other.products@.len())))))
    }

    fn less(&self, other: &Self) -> (r: bool) {
        if lex_less(self.facility.as_str(), other.facility.as_str()) {
            return true;
        }
        if !str_eq(self.facility.as_str(), other.facility.as_str()) {
            return false;
        }
        if self.time_s != other.time_s {
            return self.time_s < other.time_s;
        }
        if self.ingredients.len() != other.ingredients.len() {
            return self.ingredients.len() < other.ingredients.len();
        }
        self.products.len() < other.products.len()
    }

    proof fn lemma_weak_order(a: &Self, b: &Self, c: &Self) {
        lemma_lex_order(a.facility@, b.facility@, c.facility@);
    }
}

/// Power rows are ordered by fuel item, then time, then power output.
impl SortKey for PowerRecipeToml {
    open spec fn key_lt(&self, other: &Self) -> bool {
        lex_lt(self.ingredient.item@, other.ingredient.item@) || (self.ingredient.item@
            == other.ingredient.item@ && (self.time_s < other.time_s || (self.time_s == other.time_s
            && self.power_w < other.power_w)))
    }

    fn less(&self, other: &Self) -> (r: bool) {
        if lex_less(self.ingredient.item.as_str(), other.ingredient.item.as_str()) {
            return true;
        }
        if !str_eq(self.ingredient.item.as_str(), other.ingredient.item.as_str()) {
            return false;
        }
        if self.time_s != other.time_s {
            return self.time_s < other.time_s;
        }
        self.power_w < other.power_w
    }

    proof fn lemma_weak_order(a: &Self, b: &Self, c: &Self) {
        lemma_lex_order(a.ingredient.item@, b.ingredient.item@, c.ingredient.item@);
    }
}

/// The power of facility `k` in `table`: the first entry with that key.
pub open spec fn power_lookup(table: Seq<(String, i64)>, k: Seq<char>) -> Option<i64>
    decreases table.len(),
{
    if table.len() == 0 {
        None
    } else if table[0].0@ == k {
        Some(table[0].1)
    } else {
        power_lookup(table.drop_first(), k)
    }
}

fn lookup_power(table: &Vec<(String, i64)>, key: &str) -> (r: Option<i64>)
    ensures
        r == power_lookup(table@, key@),
{
    let mut i: usize = 0;
    assert(table@.skip(0) =~= table@);
    while i < table.len()
        invariant
            i <= table@.len(),
            power_lookup(table@, key@) == power_lookup(table@.skip(i as int), key@),
        decreases table@.len() - i,
    {
        if str_eq(table[i].0.as_str(), key) {
            return Some(table[i].1);
        }
        assert(table@.skip(i as int).drop_first() =~= table@.skip(i + 1));
        i = i + 1;
    }
    None
}

/// The thermal bank's Chinese name is known.
pub proof fn lemma_thermal_bank_zh()
    ensures
        facility_zh_spec("Thermal Bank"@) == Some("热容池"@),
{
    broadcast use vstd::string::group_string_axioms;
    reveal_strlit("Refining Unit");
    reveal_strlit("Shredding Unit");
    reveal_strlit("Fitting Unit");
    reveal_strlit("Moulding Unit");
    reveal_strlit("Seed-Picking Unit");
    reveal_strlit("Planting Unit");
    reveal_strlit("Gearing Unit");
    reveal_strlit("Filling Unit");
    reveal_strlit("Packaging Unit");
    reveal_strlit("Grinding Unit");
    reveal_strlit("Reactor Crucible");
    reveal_strlit("Forge of the Sky");
    reveal_strlit("Separating Unit");
    reveal_strlit("Thermal Bank");
    assert("Thermal Bank"@.len() != "Refining Unit"@.len());
    assert("Thermal Bank"@.len() != "Shredding Unit"@.len());
    assert("Thermal Bank"@[0] != "Fitting Unit"@[0]);
    assert("Thermal Bank"@.len() != "Moulding Unit"@.len());
    assert("Thermal Bank"@.len() != "Seed-Picking Unit"@.len());
    assert("Thermal Bank"@.len() != "Planting Unit"@.len());
    assert("Thermal Bank"@[0] != "Gearing Unit"@[0]);
    assert("Thermal Bank"@[0] != "Filling Unit"@[0]);
    assert("Thermal Bank"@.len() != "Packaging Unit"@.len());
    assert("Thermal Bank"@.len() != "Grinding Unit"@.len());
    assert("Thermal Bank"@.len() != "Reactor Crucible"@.len());
    assert("Thermal Bank"@.len() != "Forge of the Sky"@.len());
    assert("Thermal Bank"@.len() != "Separating Unit"@.len());
}

/// The conversion succeeds: every recipe can be converted, every item has a Chinese
/// name, and every machine has a positive power entry and a Chinese name.
pub open spec fn conversion_ok(power: Seq<(String, i64)>, rs: Seq<V1Recipe>) -> bool {
    &&& all_recipes_ok(rs)
    &&& forall|k: Seq<char>| #[trigger] items_of(rs).contains(k) ==> item_zh_spec(k) is Some
    &&& forall|k: Seq<char>|
        #[trigger] machines_of(rs).contains(k) ==> (power_lookup(power, k) matches Some(v) && count_ok(v))
            && facility_zh_spec(k) is Some
}

/// The keys of item rows.
pub open spec fn item_keys(items: Seq<ItemToml>) -> Seq<Seq<char>> {
    items.map_values(|x: ItemToml| x.key@)
}

/// The keys of machine rows.
pub open spec fn machine_keys(machines: Seq<MachineToml>) -> Seq<Seq<char>> {
    machines.map_values(|x: MachineToml| x.key@)
}

/// The tables that a successful conversion of `rs` with `power` produces: items and
/// machines in key order, each once, with their names and power; production and
/// power rows stably sorted; and the fixed thermal bank row.
pub open spec fn tables_of(power: Seq<(String, i64)>, rs: Seq<V1Recipe>, t: ConvertedTables) -> bool {
    let items = t.items.items@;
    let machines = t.facilities.machines@;
    &&& strictly_increasing(item_keys(items))
    &&& item_keys(items).to_set() == items_of(rs)
    &&& forall|j: int|
        0 <= j < items.len() ==> #[trigger] items[j].en@ == items[j].key@ && item_zh_spec(items[j].key@)
            == Some(items[j].zh@)
    &&& strictly_increasing(machine_keys(machines))
    &&& machine_keys(machines).to_set() == machines_of(rs)
    &&& forall|j: int|
        0 <= j < machines.len() ==> #[trigger] machines[j].en@ == machines[j].key@ && power_lookup(
            power,
            machines[j].key@,
        ) == Some(machines[j].power_w as i64) && facility_zh_spec(machines[j].key@) == Some(
            machines[j].zh@,
        )
    &&& t.facilities.thermal_bank.key@ == "Thermal Bank"@
    &&& t.facilities.thermal_bank.en@ == "Thermal Bank"@
    &&& facility_zh_spec("Thermal Bank"@) == Some(t.facilities.thermal_bank.zh@)
    &&& exists|rows: Seq<RecipeToml>|
        #![trigger recipe_rows_of(rs, rows)]
        recipe_rows_of(rs, rows) && is_stable_sort_of(t.recipes.recipes@, rows)
    &&& exists|rows: Seq<PowerRecipeToml>|
        #![trigger power_rows_of(rs, rows)]
        power_rows_of(rs, rows) && is_stable_sort_of(t.recipes.power_recipes@, rows)
}

/// The machine cannot be listed: it has no valid power entry or no Chinese name.
pub open spec fn machine_fails(power: Seq<(String, i64)>, k: Seq<char>) -> bool {
    !(power_lookup(power, k) matches Some(v) && count_ok(v)) || facility_zh_spec(k) is None
}

/// The error for machine `k`, checked in turn: a missing power entry, an invalid
/// power, a missing Chinese name.
pub open spec fn machine_error(power: Seq<(String, i64)>, k: Seq<char>, e: ConvertError) -> bool {
    match power_lookup(power, k) {
        None => e matches ConvertError::MissingFacilityPower { facility } && facility@ == k,
        Some(v) => if !count_ok(v) {
            e matches ConvertError::Schema { file, message } && file == SchemaFile::FacilityPower
                && message@ == crate::convert::validate::range_error_text(
                "facility_power `"@ + k + "`"@,
                v as int,
            )
        } else {
            e matches ConvertError::MissingI18n { kind, key } && kind@ == "facility"@ && key@ == k
        },
    }
}

/// `k` is the first key of `keys`, in text order, for which `bad` holds.
pub open spec fn least_key_with(keys: Set<Seq<char>>, bad: spec_fn(Seq<char>) -> bool, k: Seq<char>) -> bool {
    &&& keys.contains(k)
    &&& bad(k)
    &&& forall|k2: Seq<char>| #[trigger] keys.contains(k2) && bad(k2) ==> !lex_lt(k2, k)
}

/// The item has no Chinese name.
pub open spec fn item_unnamed() -> spec_fn(Seq<char>) -> bool {
    |k: Seq<char>| item_zh_spec(k) is None
}

/// The machine cannot be listed with `power`.
pub open spec fn machine_unlisted(power: Seq<(String, i64)>) -> spec_fn(Seq<char>) -> bool {
    |k: Seq<char>| machine_fails(power, k)
}

/// The error a failed conversion gives: that of the first recipe that cannot be
/// converted; else the first item, in key order, without a Chinese name; else that of
/// the first machine, in key order, that cannot be listed.
pub open spec fn conversion_error(power: Seq<(String, i64)>, rs: Seq<V1Recipe>, e: ConvertError) -> bool {
    if !all_recipes_ok(rs) {
        e matches ConvertError::Schema { file, message } && file == SchemaFile::Recipes && exists|i: int|
            #[trigger] first_bad_recipe(rs, i) && recipe_error_text(rs[i], message@)
    } else if exists|k: Seq<char>| #[trigger] items_of(rs).contains(k) && item_zh_spec(k) is None {
        e matches ConvertError::MissingI18n { kind, key } && kind@ == "item"@ && least_key_with(
            items_of(rs),
            item_unnamed(),
            key@,
        )
    } else {
        exists|k: Seq<char>|
            #[trigger] least_key_with(machines_of(rs), machine_unlisted(power), k) && machine_error(power, k, e)
    }
}

/// When every listed item has a Chinese name, so has every item of the recipes.
proof fn lemma_items_named(item_set: Seq<String>, rs: Seq<V1Recipe>)
    requires
        string_views(item_set).to_set() == items_of(rs),
        forall|j: int| 0 <= j < item_set.len() ==> item_zh_spec(#[trigger] item_set[j]@) is Some,
    ensures
        forall|k: Seq<char>| #[trigger] items_of(rs).contains(k) ==> item_zh_spec(k) is Some,
{
    assert forall|k: Seq<char>| #[trigger] items_of(rs).contains(k) implies item_zh_spec(k) is Some by {
        assert(string_views(item_set).to_set().contains(k));
        let j = choose|j: int| 0 <= j < string_views(item_set).len() && string_views(item_set)[j] == k;
        assert(item_zh_spec(item_set[j]@) is Some);
    }
}

/// In a strictly increasing list, the entry at `i` is the least for which `bad` holds
/// when `bad` holds there and at no earlier entry.
proof fn lemma_least_at(v: Seq<Seq<char>>, bad: spec_fn(Seq<char>) -> bool, i: int)
    requires
        strictly_increasing(v),
        0 <= i < v.len(),
        forall|j: int| 0 <= j < i ==> !bad(#[trigger] v[j]),
        bad(v[i]),
    ensures
        least_key_with(v.to_set(), bad, v[i]),
{
    assert(v.to_set().contains(v[i]));
    assert forall|k2: Seq<char>| #[trigger] v.to_set().contains(k2) && bad(k2) implies !lex_lt(k2, v[i]) by {
        let j = choose|j: int| 0 <= j < v.len() && v[j] == k2;
        if j == i {
            lemma_lex_order(k2, k2, k2);
        } else if j > i {
            assert(lex_lt(v[i], v[j]));
            lemma_lex_order(v[i], v[j], v[j]);
        } else {
            assert(!bad(v[j]));
        }
    }
}

/// Converts legacy recipes into the item, facility and recipe tables.
///
/// Thermal bank recipes become power rows; every other recipe becomes a production
/// row, and its facility a machine. Items and machines are listed once each, in key
/// order, with their Chinese names; machines take their power from `facility_power`.
/// Production rows are sorted by facility, time, and numbers of ingredients and
/// products; power rows by fuel, time and power; equal rows keep their input order.
pub fn convert_tables(facility_power: &Vec<(String, i64)>, recipes: &Vec<V1Recipe>) -> (r: Result<
    ConvertedTables,
    ConvertError,
>)
    ensures
        r is Ok <==> conversion_ok(facility_power@, recipes@),
        r matches Ok(t) ==> tables_of(facility_power@, recipes@, t),
        r matches Err(e) ==> conversion_error(facility_power@, recipes@, e),
{
    let ghost rs = recipes@;
    let ghost power = facility_power@;
    let c = match collect_rows(recipes) {
        Ok(c) => c,
        Err(e) => {
            return Err(e);
        },
    };
    let Collected { rows, power_rows, items: item_set, machines: machine_set } = c;
    let ghost raw_rows = rows@;
    let ghost raw_power_rows = power_rows@;
    let recipe_rows = stable_sort(rows);
    let power_recipe_rows = stable_sort(power_rows);

    let mut items: Vec<ItemToml> = Vec::with_capacity(item_set.len());
    let mut i: usize = 0;
    while i < item_set.len()
        invariant
            i <= item_set@.len(),
            items@.len() == i,
            forall|j: int| 0 <= j < i ==> #[trigger] items@[j].key@ == item_set@[j]@,
            forall|j: int|
                0 <= j < i ==> #[trigger] items@[j].en@ == items@[j].key@ && item_zh_spec(items@[j].key@)
                    == Some(items@[j].zh@),
            forall|j: int| 0 <= j < i ==> item_zh_spec(#[trigger] item_set@[j]@) is Some,
            rs == recipes@,
            all_recipes_ok(rs),
            strictly_increasing(string_views(item_set@)),
            string_views(item_set@).to_set() == items_of(rs),
        decreases item_set@.len() - i,
    {
        let key = &item_set[i];
        let zh = match item_zh(key.as_str()) {
            Some(z) => z,
            None => {
                proof {
                    let v = string_views(item_set@);
                    assert(v[i as int] == item_set@[i as int]@);
                    assert(v.to_set().contains(item_set@[i as int]@));
                    assert forall|j: int| 0 <= j < i implies !item_unnamed()(#[trigger] v[j]) by {
                        assert(v[j] == item_set@[j]@);
                    }
                    lemma_least_at(v, item_unnamed(), i as int);
                }
                return Err(ConvertError::MissingI18n { kind: "item", key: key.clone() });
            },
        };
        items.push(ItemToml { key: key.clone(), en: key.clone(), zh });
        i = i + 1;
    }
    proof {
        assert(item_keys(items@) =~= string_views(item_set@));
    }

    let mut machines: Vec<MachineToml> = Vec::with_capacity(machine_set.len());
    let mut i: usize = 0;
    while i < machine_set.len()
        invariant
            i <= machine_set@.len(),
            machines@.len() == i,
            forall|j: int| 0 <= j < i ==> #[trigger] machines@[j].key@ == machine_set@[j]@,
            forall|j: int|
                0 <= j < i ==> #[trigger] machines@[j].en@ == machines@[j].key@ && power_lookup(
                    power,
                    machines@[j].key@,
                ) == Some(machines@[j].power_w as i64) && facility_zh_spec(machines@[j].key@) == Some(
                    machines@[j].zh@,
                ),
            forall|j: int|
                0 <= j < i ==> (power_lookup(power, #[trigger] machine_set@[j]@) matches Some(v) && count_ok(v))
                    && facility_zh_spec(machine_set@[j]@) is Some,
            power == facility_power@,
            rs == recipes@,
            all_recipes_ok(rs),
            strictly_increasing(string_views(machine_set@)),
            string_views(machine_set@).to_set() == machines_of(rs),
            string_views(item_set@).to_set() == items_of(rs),
            forall|j: int| 0 <= j < item_set@.len() ==> item_zh_spec(#[trigger] item_set@[j]@) is Some,
        decreases machine_set@.len() - i,
    {
        let key = &machine_set[i];
        proof {
            assert(string_views(machine_set@)[i as int] == machine_set@[i as int]@);
            assert(string_views(machine_set@).to_set().contains(machine_set@[i as int]@));
        }
        proof {
            lemma_items_named(item_set@, rs);
            let v = string_views(machine_set@);
            assert forall|j: int| 0 <= j < i implies !machine_unlisted(power)(#[trigger] v[j]) by {
                assert(v[j] == machine_set@[j]@);
            }
            assert(v[i as int] == machine_set@[i as int]@);
        }
        let power_w_i64 = match lookup_power(facility_power, key.as_str()) {
            Some(v) => v,
            None => {
                proof {
                    lemma_least_at(string_views(machine_set@), machine_unlisted(power), i as int);
                }
                return Err(ConvertError::MissingFacilityPower { facility: key.clone() });
            },
        };
        let mut field = concat_str("facility_power `", key.as_str());
        field.append("`");
        let power_w = match parse_positive_u32(SchemaFile::FacilityPower, field, power_w_i64) {
            Ok(p) => p,
            Err(e) => {
                proof {
                    lemma_least_at(string_views(machine_set@), machine_unlisted(power), i as int);
                    assert(machine_error(power, machine_set@[i as int]@, e));
                }
                return Err(e);
            },
        };
        let zh = match facility_zh(key.as_str()) {
            Some(z) => z,
            None => {
                proof {
                    lemma_least_at(string_views(machine_set@), machine_unlisted(power), i as int);
                }
                return Err(ConvertError::MissingI18n { kind: "facility", key: key.clone() });
            },
        };
        machines.push(MachineToml {
            key: key.clone(),
            power_w,
            en: key.clone(),
            zh: String::from_str(zh),
        });
        i = i + 1;
    }
    proof {
        assert(machine_keys(machines@) =~= string_views(machine_set@));
    }

    let thermal_zh = match facility_zh("Thermal Bank") {
        Some(z) => z,
        None => {
            proof {
                lemma_thermal_bank_zh();
            }
            return Err(ConvertError::MissingI18n {
                kind: "facility",
                key: String::from_str("Thermal Bank"),
            });
        },
    };
    let thermal_bank = ThermalBankToml {
        key: String::from_str("Thermal Bank"),
        en: String::from_str("Thermal Bank"),
        zh: String::from_str(thermal_zh),
    };
    let t = ConvertedTables {
        items: ItemsToml { items },
        facilities: FacilitiesToml { machines, thermal_bank },
        recipes: RecipesToml { recipes: recipe_rows, power_recipes: power_recipe_rows },
    };
    proof {
        assert(recipe_rows_of(rs, raw_rows));
        assert(power_rows_of(rs, raw_power_rows));
        assert forall|k: Seq<char>| #[trigger] items_of(rs).contains(k) implies item_zh_spec(k) is Some by {
            assert(string_views(item_set@).to_set().contains(k));
            let j = choose|j: int| 0 <= j < string_views(item_set@).len() && string_views(item_set@)[j] == k;
            assert(item_zh_spec(item_set@[j]@) is Some);
        }
        assert forall|k: Seq<char>| #[trigger] machines_of(rs).contains(k) implies (power_lookup(power, k) matches Some(v) && count_ok(v))
            && facility_zh_spec(k) is Some by {
            assert(string_views(machine_set@).to_set().contains(k));
            let j = choose|j: int| 0 <= j < string_views(machine_set@).len() && string_views(machine_set@)[j] == k;
            assert(facility_zh_spec(machine_set@[j]@) is Some);
        }
    }
    Ok(t)
}

/// Production rows come out ordered: by facility name, then for one facility by time,
/// then by number of ingredients, then by number of products, each ascending.
pub proof fn law_recipe_rows_ordered(power: Seq<(String, i64)>, rs: Seq<V1Recipe>, t: ConvertedTables)
    requires
        tables_of(power, rs, t),
    ensures
        forall|i: int, j: int|
            0 <= i < j < t.recipes.recipes@.len() ==> {
                let a = #[trigger] t.recipes.recipes@[i];
                let b = #[trigger] t.recipes.recipes@[j];
                &&& !lex_lt(b.facility@, a.facility@)
                &&& a.facility@ == b.facility@ ==> a.time_s <= b.time_s
                &&& a.facility@ == b.facility@ && a.time_s == b.time_s ==> a.ingredients@.len()
                    <= b.ingredients@.len()
                &&& a.facility@ == b.facility@ && a.time_s == b.time_s && a.ingredients@.len()
                    == b.ingredients@.len() ==> a.products@.len() <= b.products@.len()
            },
{
    let rows = choose|rows: Seq<RecipeToml>|
        #![trigger recipe_rows_of(rs, rows)]
        recipe_rows_of(rs, rows) && is_stable_sort_of(t.recipes.recipes@, rows);
    law_stable_sort_never_goes_down(t.recipes.recipes@, rows);
}

/// Power rows come out ordered: by fuel item name, then for one fuel by time, then by
/// power, each ascending.
pub proof fn law_power_rows_ordered(power: Seq<(String, i64)>, rs: Seq<V1Recipe>, t: ConvertedTables)
    requires
        tables_of(power, rs, t),
    ensures
        forall|i: int, j: int|
            0 <= i < j < t.recipes.power_recipes@.len() ==> {
                let a = #[trigger] t.recipes.power_recipes@[i];
                let b = #[trigger] t.recipes.power_recipes@[j];
                &&& !lex_lt(b.ingredient.item@, a.ingredient.item@)
                &&& a.ingredient.item@ == b.ingredient.item@ ==> a.time_s <= b.time_s
                &&& a.ingredient.item@ == b.ingredient.item@ && a.time_s == b.time_s ==> a.power_w
                    <= b.power_w
            },
{
    let rows = choose|rows: Seq<PowerRecipeToml>|
        #![trigger power_rows_of(rs, rows)]
        power_rows_of(rs, rows) && is_stable_sort_of(t.recipes.power_recipes@, rows);
    law_stable_sort_never_goes_down(t.recipes.power_recipes@, rows);
}

/// Between two production rows of one facility and time, the one with fewer
/// ingredients sorts first, and with as many ingredients, the one with fewer products.
pub proof fn law_recipe_row_comparison(a: RecipeToml, b: RecipeToml)
    ensures
        lex_lt(a.facility@, b.facility@) ==> a.key_lt(&b) && !b.key_lt(&a),
        a.facility@ == b.facility@ && a.time_s < b.time_s ==> a.key_lt(&b) && !b.key_lt(&a),
        a.facility@ == b.facility@ && a.time_s == b.time_s && a.ingredients@.len() < b.ingredients@.len()
            ==> a.key_lt(&b) && !b.key_lt(&a),
        a.facility@ == b.facility@ && a.time_s == b.time_s && a.ingredients@.len() == b.ingredients@.len()
            && a.products@.len() < b.products@.len() ==> a.key_lt(&b) && !b.key_lt(&a),
{
    lemma_lex_order(a.facility@, b.facility@, b.facility@);
}

} // verus!
