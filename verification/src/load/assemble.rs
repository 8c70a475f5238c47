//! Building a [`Catalog`] from catalog records: items, then machines, then the
//! thermal bank, then recipes and power recipes resolved against the keys added.

use vstd::prelude::*;
use crate::catalog::{
    BuilderModel, Catalog, CatalogBuildError, CatalogBuilder, FacilityDef, FacilityKind, ItemDef, ItemId,
    PowerRecipe, Recipe, Stack, lemma_builder_consistent, lemma_facility_id_view, lemma_item_id_view,
};
use crate::load::error::{LoadError, Span};
use crate::load::regions::{FacilityRegions, facility_regions_from_machine_regions, regions_of};
use crate::load::schema::{
    FacilitiesToml, ItemToml, MachineToml, PowerRecipeToml, RecipeToml, RecipesToml, StackToml,
};

verus! {

broadcast use {lemma_item_id_view, lemma_facility_id_view};

/// A number that fits a positive `u32`.
pub open spec fn positive_u32(v: i64) -> bool {
    1 <= v <= u32::MAX
}

/// No key occurs twice.
pub open spec fn distinct_keys(ks: Seq<Seq<char>>) -> bool {
    forall|a: int, b: int| 0 <= a < ks.len() && 0 <= b < ks.len() && a != b ==> #[trigger] ks[a] != #[trigger] ks[b]
}

/// The item keys, in order.
pub open spec fn item_keys(items: Seq<ItemToml>) -> Seq<Seq<char>> {
    items.map_values(|x: ItemToml| x.key@)
}

/// The facility keys: the machines' keys in order, then the thermal bank's.
pub open spec fn facility_keys(f: FacilitiesToml) -> Seq<Seq<char>> {
    machine_keys(f.machines@).push(f.thermal_bank.key@)
}

/// The machine keys, in order.
pub open spec fn machine_keys(ms: Seq<MachineToml>) -> Seq<Seq<char>> {
    ms.map_values(|x: MachineToml| x.key@)
}

/// The item definition an item record becomes.
/// Gases behave as liquids: either flag makes the item a fluid.
pub open spec fn item_def_of(r: ItemToml) -> ItemDef {
    ItemDef { key: r.key, en: r.en, zh: r.zh, is_fluid: r.fluid || r.gas }
}

/// The facility definition a machine record becomes.
pub open spec fn machine_def_of(r: MachineToml) -> FacilityDef {
    FacilityDef {
        key: r.key,
        kind: FacilityKind::Machine,
        power_w: Some(r.power_w as u32),
        en: r.en,
        zh: r.zh,
        regions: regions_of(r.regions@),
    }
}

/// The stack resolves: its item key is one of `keys` and its count is valid.
pub open spec fn stack_loads(keys: Seq<Seq<char>>, s: StackToml) -> bool {
    keys.contains(s.item@) && positive_u32(s.count)
}

/// Every stack's item key is one of `keys`.
pub open spec fn stack_keys_known(keys: Seq<Seq<char>>, s: Seq<StackToml>) -> bool {
    forall|j: int| 0 <= j < s.len() ==> keys.contains(#[trigger] s[j].item@)
}

/// The counts of some stacks, in order.
pub open spec fn counts_of(s: Seq<StackToml>) -> Seq<i64> {
    s.map_values(|x: StackToml| x.count)
}

/// Every count is a positive `u32`.
pub open spec fn counts_ok(cs: Seq<i64>) -> bool {
    forall|j: int| 0 <= j < cs.len() ==> positive_u32(#[trigger] cs[j])
}

/// Every stack resolves.
pub open spec fn stacks_load(keys: Seq<Seq<char>>, s: Seq<StackToml>) -> bool {
    stack_keys_known(keys, s) && counts_ok(counts_of(s))
}

/// Stack `j` holds the first item key of `s` that is not one of `keys`.
pub open spec fn first_unknown_stack(keys: Seq<Seq<char>>, s: Seq<StackToml>, j: int) -> bool {
    &&& 0 <= j < s.len()
    &&& forall|q: int| 0 <= q < j ==> keys.contains(#[trigger] s[q].item@)
    &&& !keys.contains(s[j].item@)
}

/// Count `j` is the first of `cs` that is not a positive `u32`.
pub open spec fn first_bad_count(cs: Seq<i64>, j: int) -> bool {
    &&& 0 <= j < cs.len()
    &&& forall|q: int| 0 <= q < j ==> positive_u32(#[trigger] cs[q])
    &&& !positive_u32(cs[j])
}

/// The recipe resolves against the item and facility keys.
pub open spec fn recipe_loads(items: Seq<Seq<char>>, facilities: Seq<Seq<char>>, r: RecipeToml) -> bool {
    &&& facilities.contains(r.facility@)
    &&& positive_u32(r.time_s)
    &&& stacks_load(items, r.ingredients@)
    &&& stacks_load(items, r.products@)
}

/// The power recipe resolves against the item keys.
pub open spec fn power_recipe_loads(items: Seq<Seq<char>>, p: PowerRecipeToml) -> bool {
    stack_loads(items, p.ingredient) && positive_u32(p.power_w) && positive_u32(p.time_s)
}

/// The records make a catalog: keys are unique among items and among facilities,
/// machine powers are valid, and every recipe resolves.
pub open spec fn load_ok(items: Seq<ItemToml>, f: FacilitiesToml, rs: RecipesToml) -> bool {
    &&& distinct_keys(item_keys(items))
    &&& distinct_keys(facility_keys(f))
    &&& forall|i: int| 0 <= i < f.machines@.len() ==> positive_u32(#[trigger] f.machines@[i].power_w)
    &&& forall|i: int| 0 <= i < rs.recipes@.len() ==> #[trigger] recipe_loads(item_keys(items), facility_keys(f), rs.recipes@[i])
    &&& forall|i: int| 0 <= i < rs.power_recipes@.len() ==> #[trigger] power_recipe_loads(item_keys(items), rs.power_recipes@[i])
}

/// `t` is the stack `s` resolved against the catalog's items.
pub open spec fn stack_loaded(items: Seq<ItemDef>, s: StackToml, t: Stack) -> bool {
    t.item@ < items.len() && items[t.item@ as int].key@ == s.item@ && t.count == s.count
}

/// `t` are the stacks `s` resolved, in order.
pub open spec fn stacks_loaded(items: Seq<ItemDef>, s: Seq<StackToml>, t: Seq<Stack>) -> bool {
    t.len() == s.len() && forall|j: int| 0 <= j < s.len() ==> #[trigger] stack_loaded(items, s[j], t[j])
}

/// `t` is the recipe `r` resolved against the catalog.
pub open spec fn recipe_loaded(items: Seq<ItemDef>, facilities: Seq<FacilityDef>, r: RecipeToml, t: Recipe) -> bool {
    &&& t.facility@ < facilities.len()
    &&& facilities[t.facility@ as int].key@ == r.facility@
    &&& t.time_s == r.time_s
    &&& stacks_loaded(items, r.ingredients@, t.ingredients@)
    &&& stacks_loaded(items, r.products@, t.products@)
}

/// `t` is the power recipe `p` resolved against the catalog.
pub open spec fn power_recipe_loaded(items: Seq<ItemDef>, p: PowerRecipeToml, t: PowerRecipe) -> bool {
    stack_loaded(items, p.ingredient, t.ingredient) && t.power_w == p.power_w && t.time_s == p.time_s
}

/// The machines' keys are distinct and their powers valid.
pub open spec fn machines_ok(ms: Seq<MachineToml>) -> bool {
    &&& distinct_keys(machine_keys(ms))
    &&& forall|q: int| 0 <= q < ms.len() ==> positive_u32(#[trigger] ms[q].power_w)
}

/// `e` is the error of item `i`, the first whose key repeats an earlier one.
pub open spec fn item_error_at(its: Seq<ItemToml>, i: int, e: LoadError) -> bool {
    &&& 0 <= i < its.len()
    &&& distinct_keys(item_keys(its.take(i)))
    &&& item_keys(its.take(i)).contains(its[i].key@)
    &&& e == LoadError::Item {
        index: i as usize,
        source: CatalogBuildError::DuplicateItemKey(its[i].key),
        span: its[i].span,
    }
}

/// `e` is the error of machine `i`, the first with an invalid power or a repeated key
/// (the power is checked first).
pub open spec fn machine_error_at(ms: Seq<MachineToml>, i: int, e: LoadError) -> bool {
    &&& 0 <= i < ms.len()
    &&& machines_ok(ms.take(i))
    &&& if !positive_u32(ms[i].power_w) {
        e == LoadError::InvalidNumber {
            field: "machines.power_w",
            index: i as usize,
            value: ms[i].power_w,
            span: ms[i].span,
        }
    } else {
        &&& machine_keys(ms.take(i)).contains(ms[i].key@)
        &&& e == LoadError::Machine {
            index: i as usize,
            source: CatalogBuildError::DuplicateFacilityKey(ms[i].key),
            span: ms[i].span,
        }
    }
}

/// `e` is the error of recipe `i`, the first that does not resolve. Keys are resolved
/// before numbers are checked: its facility, the item keys of its ingredients and then
/// of its products, then its time, the counts of its ingredients and then of its
/// products.
pub open spec fn recipe_error_at(
    items: Seq<Seq<char>>,
    facilities: Seq<Seq<char>>,
    rs: Seq<RecipeToml>,
    i: int,
    e: LoadError,
) -> bool {
    let r = rs[i];
    &&& 0 <= i < rs.len()
    &&& forall|q: int| 0 <= q < i ==> #[trigger] recipe_loads(items, facilities, rs[q])
    &&& if !facilities.contains(r.facility@) {
        e == LoadError::UnknownFacility { key: r.facility, span: r.span }
    } else if !stack_keys_known(items, r.ingredients@) {
        exists|j: int|
            #[trigger] first_unknown_stack(items, r.ingredients@, j) && e == LoadError::UnknownItem {
                key: r.ingredients@[j].item,
                span: r.ingredients@[j].span,
            }
    } else if !stack_keys_known(items, r.products@) {
        exists|j: int|
            #[trigger] first_unknown_stack(items, r.products@, j) && e == LoadError::UnknownItem {
                key: r.products@[j].item,
                span: r.products@[j].span,
            }
    } else if !positive_u32(r.time_s) {
        e == LoadError::InvalidNumber {
            field: "recipes.time_s",
            index: i as usize,
            value: r.time_s,
            span: r.span,
        }
    } else if !counts_ok(counts_of(r.ingredients@)) {
        exists|j: int|
            #[trigger] first_bad_count(counts_of(r.ingredients@), j) && e == LoadError::InvalidNumber {
                field: "recipes.ingredients.count",
                index: j as usize,
                value: r.ingredients@[j].count,
                span: r.ingredients@[j].span,
            }
    } else {
        exists|j: int|
            #[trigger] first_bad_count(counts_of(r.products@), j) && e == LoadError::InvalidNumber {
                field: "recipes.products.count",
                index: j as usize,
                value: r.products@[j].count,
                span: r.products@[j].span,
            }
    }
}

/// `e` is the error of power recipe `i`, the first that does not resolve: the item key
/// of its fuel, then the fuel's count, its power and its time.
pub open spec fn power_recipe_error_at(items: Seq<Seq<char>>, ps: Seq<PowerRecipeToml>, i: int, e: LoadError) -> bool {
    let p = ps[i];
    &&& 0 <= i < ps.len()
    &&& forall|q: int| 0 <= q < i ==> #[trigger] power_recipe_loads(items, ps[q])
    &&& e == if !items.contains(p.ingredient.item@) {
        LoadError::UnknownItem { key: p.ingredient.item, span: p.ingredient.span }
    } else if !positive_u32(p.ingredient.count) {
        LoadError::InvalidNumber {
            field: "power_recipes.ingredient.count",
            index: i as usize,
            value: p.ingredient.count,
            span: p.ingredient.span,
        }
    } else if !positive_u32(p.power_w) {
        LoadError::InvalidNumber {
            field: "power_recipes.power_w",
            index: i as usize,
            value: p.power_w,
            span: p.span,
        }
    } else {
        LoadError::InvalidNumber {
            field: "power_recipes.time_s",
            index: i as usize,
            value: p.time_s,
            span: p.span,
        }
    }
}

/// The error loading the records gives: that of the first record that does not fit,
/// taking items, machines, the thermal bank, recipes and power recipes in turn.
pub open spec fn load_error(its: Seq<ItemToml>, f: FacilitiesToml, rs: RecipesToml, e: LoadError) -> bool {
    let ms = f.machines@;
    if !distinct_keys(item_keys(its)) {
        exists|i: int| #[trigger] item_error_at(its, i, e)
    } else if !machines_ok(ms) {
        exists|i: int| #[trigger] machine_error_at(ms, i, e)
    } else if machine_keys(ms).contains(f.thermal_bank.key@) {
        e == LoadError::ThermalBank {
            source: CatalogBuildError::DuplicateFacilityKey(f.thermal_bank.key),
            span: f.thermal_bank.span,
        }
    } else if exists|i: int| 0 <= i < rs.recipes@.len() && !#[trigger] recipe_loads(item_keys(its), facility_keys(f), rs.recipes@[i]) {
        exists|i: int| #[trigger] recipe_error_at(item_keys(its), facility_keys(f), rs.recipes@, i, e)
    } else {
        exists|i: int| #[trigger] power_recipe_error_at(item_keys(its), rs.power_recipes@, i, e)
    }
}

fn check_positive(field: &'static str, index: usize, value: i64, span: Span) -> (r: Result<u32, LoadError>)
    ensures
        positive_u32(value) ==> r == Ok::<u32, LoadError>(value as u32),
        !positive_u32(value) ==> r == Err::<u32, LoadError>((LoadError::InvalidNumber { field, index, value, span })),
{
    if value < 1 || value > 4294967295i64 {
        return Err(LoadError::InvalidNumber { field, index, value, span });
    }
    Ok(value as u32)
}

/// A stack whose item key has been resolved; its count is not checked yet.
#[derive(Debug, Clone, Copy)]
pub struct ResolvedStack {
    pub item: ItemId,
    pub count: i64,
    pub span: Span,
}

/// The counts of resolved stacks, in order.
pub open spec fn resolved_counts(t: Seq<ResolvedStack>) -> Seq<i64> {
    t.map_values(|x: ResolvedStack| x.count)
}

/// The keys of the items added to a builder, in id order.
pub open spec fn builder_item_keys(b: BuilderModel) -> Seq<Seq<char>> {
    b.items.map_values(|x: ItemDef| x.key@)
}

/// Resolves one stack's item key into an item id, passing its count on unchecked.
pub fn resolve_stack(builder: &CatalogBuilder, raw: &StackToml) -> (r: Result<
    ResolvedStack,
    LoadError,
>)
    requires
        builder.wf(),
    ensures
        builder@.item_index.get(raw.item@) matches Some(id) ==> r == Ok::<ResolvedStack, LoadError>(
            (ResolvedStack { item: id, count: raw.count, span: raw.span }),
        ),
        builder@.item_index.get(raw.item@) is None ==> r == Err::<ResolvedStack, LoadError>(
            (LoadError::UnknownItem { key: raw.item, span: raw.span }),
        ),
{
    let item = match builder.item_id(raw.item.as_str()) {
        Some(id) => id,
        None => {
            return Err(LoadError::UnknownItem { key: raw.item.clone(), span: raw.span });
        },
    };
    Ok(ResolvedStack { item, count: raw.count, span: raw.span })
}

/// Resolves the item keys of a list of stacks in order, stopping at the first key
/// that is not in the builder.
pub fn resolve_stack_list(builder: &CatalogBuilder, raw: &Vec<StackToml>) -> (r: Result<
    Vec<ResolvedStack>,
    LoadError,
>)
    requires
        builder.wf(),
    ensures
        r is Ok <==> stack_keys_known(builder_item_keys(builder@), raw@),
        r matches Ok(t) ==> (t@.len() == raw@.len() && forall|j: int| 0 <= j < raw@.len() ==> #[trigger] t@[j]
            == (ResolvedStack { item: builder@.item_index[raw@[j].item@], count: raw@[j].count, span: raw@[j].span })),
        r matches Err(e) ==> (exists|j: int|
            #[trigger] first_unknown_stack(builder_item_keys(builder@), raw@, j) && e == (LoadError::UnknownItem {
                key: raw@[j].item,
                span: raw@[j].span,
            })),
{
    let ghost keys = builder_item_keys(builder@);
    proof {
        lemma_builder_consistent(builder);
    }
    let mut out: Vec<ResolvedStack> = Vec::with_capacity(raw.len());
    let mut j: usize = 0;
    while j < raw.len()
        invariant
            builder.wf(),
            builder@.consistent(),
            keys == builder_item_keys(builder@),
            j <= raw@.len(),
            out@.len() == j,
            forall|q: int| 0 <= q < j ==> keys.contains(#[trigger] raw@[q].item@),
            forall|q: int| 0 <= q < j ==> #[trigger] out@[q] == (ResolvedStack { item: builder@.item_index[raw@[q].item@], count: raw@[q].count, span: raw@[q].span }),
        decreases raw@.len() - j,
    {
        proof {
            lemma_index_dom_items(builder@, raw@[j as int].item@);
        }
        let s = match resolve_stack(builder, &raw[j]) {
            Ok(s) => s,
            Err(e) => {
                assert(first_unknown_stack(keys, raw@, j as int));
                return Err(e);
            },
        };
        out.push(s);
        j = j + 1;
    }
    Ok(out)
}

/// Checks the counts of resolved stacks in order; `field` names them in the error of
/// the first count that is not a positive `u32`.
fn check_counts(field: &'static str, stacks: &Vec<ResolvedStack>) -> (r: Result<
    Vec<Stack>,
    LoadError,
>)
    ensures
        r is Ok <==> counts_ok(resolved_counts(stacks@)),
        r matches Ok(t) ==> (t@.len() == stacks@.len() && forall|j: int| 0 <= j < stacks@.len() ==> #[trigger] t@[j]
            == (Stack { item: stacks@[j].item, count: stacks@[j].count as u32 })),
        r matches Err(e) ==> (exists|j: int|
            #[trigger] first_bad_count(resolved_counts(stacks@), j)
                && e == (LoadError::InvalidNumber { field, index: j as usize, value: stacks@[j].count, span: stacks@[j].span })),
{
    let ghost cs = resolved_counts(stacks@);
    let mut out: Vec<Stack> = Vec::with_capacity(stacks.len());
    let mut j: usize = 0;
    while j < stacks.len()
        invariant
            cs == resolved_counts(stacks@),
            j <= stacks@.len(),
            out@.len() == j,
            forall|q: int| 0 <= q < j ==> positive_u32(#[trigger] cs[q]),
            forall|q: int| 0 <= q < j ==> #[trigger] out@[q] == (Stack { item: stacks@[q].item, count: stacks@[q].count as u32 }),
        decreases stacks@.len() - j,
    {
        let st = stacks[j];
        let count = match check_positive(field, j, st.count, st.span) {
            Ok(c) => c,
            Err(e) => {
                assert(first_bad_count(cs, j as int));
                return Err(e);
            },
        };
        out.push(Stack { item: st.item, count });
        j = j + 1;
    }
    Ok(out)
}

/// The facility definition the thermal bank record becomes; it is available in
/// every region.
pub open spec fn thermal_def_of(f: FacilitiesToml) -> FacilityDef {
    FacilityDef {
        key: f.thermal_bank.key,
        kind: FacilityKind::ThermalBank,
        power_w: None,
        en: f.thermal_bank.en,
        zh: f.thermal_bank.zh,
        regions: FacilityRegions::All,
    }
}

/// The catalog that the records describe: items in order, machines in order followed
/// by the thermal bank, and every recipe and power recipe resolved.
pub open spec fn catalog_of(items: Seq<ItemToml>, f: FacilitiesToml, rs: RecipesToml, c: Catalog) -> bool {
    let m = f.machines@;
    &&& c.wf()
    &&& c@.recipes_reference_facilities()
    &&& c@.items == items.map_values(|x: ItemToml| item_def_of(x))
    &&& c@.facilities == m.map_values(|x: MachineToml| machine_def_of(x)).push(thermal_def_of(f))
    &&& c@.thermal_bank@ == m.len()
    &&& c@.recipes.len() == rs.recipes@.len()
    &&& forall|i: int| 0 <= i < rs.recipes@.len() ==> #[trigger] recipe_loaded(c@.items, c@.facilities, rs.recipes@[i], c@.recipes[i])
    &&& c@.power_recipes.len() == rs.power_recipes@.len()
    &&& forall|i: int| 0 <= i < rs.power_recipes@.len() ==> #[trigger] power_recipe_loaded(c@.items, rs.power_recipes@[i], c@.power_recipes[i])
}

proof fn lemma_machines_prefix_ok(ms: Seq<MachineToml>, i: int)
    requires
        0 <= i <= ms.len(),
        distinct_keys(machine_keys(ms.take(i))),
        forall|q: int| 0 <= q < i ==> positive_u32(#[trigger] ms[q].power_w),
    ensures
        machines_ok(ms.take(i)),
{
    assert forall|q: int| 0 <= q < i implies positive_u32(#[trigger] ms.take(i)[q].power_w) by {
        assert(ms.take(i)[q] == ms[q]);
        assert(positive_u32(ms[q].power_w));
    }
}

proof fn lemma_index_dom_items(b: BuilderModel, k: Seq<char>)
    requires
        b.consistent(),
    ensures
        b.item_index.contains_key(k) <==> b.items.map_values(|x: ItemDef| x.key@).contains(k),
{
    let ks = b.items.map_values(|x: ItemDef| x.key@);
    if b.item_index.contains_key(k) {
        let p = b.item_index[k]@ as int;
        assert(ks[p] == k);
    }
    if ks.contains(k) {
        let j = choose|j: int| 0 <= j < ks.len() && ks[j] == k;
        assert(b.item_index.contains_key(b.items[j].key@));
    }
}

proof fn lemma_stacks_resolved(
    b: BuilderModel,
    its: Seq<ItemToml>,
    s: Seq<StackToml>,
    rs: Seq<ResolvedStack>,
    t: Seq<Stack>,
)
    requires
        b.consistent(),
        builder_item_keys(b) == item_keys(its),
        stack_keys_known(item_keys(its), s),
        rs.len() == s.len(),
        forall|j: int| 0 <= j < s.len() ==> #[trigger] rs[j] == (ResolvedStack { item: b.item_index[s[j].item@], count: s[j].count, span: s[j].span }),
        t.len() == rs.len(),
        forall|j: int| 0 <= j < rs.len() ==> #[trigger] t[j] == (Stack { item: rs[j].item, count: rs[j].count as u32 }),
        counts_ok(resolved_counts(rs)),
    ensures
        stacks_load(item_keys(its), s),
        stacks_loaded(b.items, s, t),
{
    assert(resolved_counts(rs) =~= counts_of(s));
    assert forall|j: int| 0 <= j < s.len() implies #[trigger] stack_loaded(b.items, s[j], t[j]) by {
        assert(item_keys(its).contains(s[j].item@));
        lemma_index_dom_items(b, s[j].item@);
        assert(rs[j] == ResolvedStack { item: b.item_index[s[j].item@], count: s[j].count, span: s[j].span });
        assert(positive_u32(counts_of(s)[j]));
    }
}

/// Builds the catalog the records describe, in the order of the data files: items,
/// machines, the thermal bank, recipes, then power recipes. The first record that
/// does not fit stops the build with its error.
pub fn catalog_from_tables(items: &Vec<ItemToml>, facilities: &FacilitiesToml, recipes: &RecipesToml) -> (r: Result<
    Catalog,
    LoadError,
>)
    requires
        items@.len() <= u32::MAX,
        facilities.machines@.len() < u32::MAX,
    ensures
        r is Ok <==> load_ok(items@, *facilities, *recipes),
        r matches Ok(c) ==> catalog_of(items@, *facilities, *recipes, c),
        r matches Ok(c) ==> (c@.items.len() == items@.len() && forall|i: int|
            0 <= i < items@.len() ==> (#[trigger] c@.items[i]).key == items@[i].key && c@.items[i].en
                == items@[i].en && c@.items[i].zh == items@[i].zh && c@.items[i].is_fluid == (
            items@[i].fluid || items@[i].gas)),
        r matches Err(LoadError::UnknownItem { key, .. }) ==> !item_keys(items@).contains(key@),
        r matches Err(LoadError::UnknownFacility { key, .. }) ==> !facility_keys(*facilities).contains(key@),
        r matches Err(e) ==> load_error(items@, *facilities, *recipes, e),
{
    let ghost its = items@;
    let ghost f = *facilities;
    let ghost rs = *recipes;
    let ghost ms = facilities.machines@;
    let mut builder = Catalog::builder();

    // items
    let mut i: usize = 0;
    proof {
        assert(its.take(0).map_values(|x: ItemToml| item_def_of(x)) =~= Seq::<ItemDef>::empty());
    }
    while i < items.len()
        invariant
            its == items@,
            its.len() <= u32::MAX,
            i <= its.len(),
            builder.wf(),
            builder@.items == its.take(i as int).map_values(|x: ItemToml| item_def_of(x)),
            builder@.facilities.len() == 0,
            builder@.facility_index == Map::<Seq<char>, crate::catalog::FacilityId>::empty(),
            builder@.recipes.len() == 0,
            builder@.power_recipes.len() == 0,
            builder@.thermal_bank is None,
            distinct_keys(item_keys(its.take(i as int))),
        decreases its.len() - i,
    {
        let raw = &items[i];
        let def = ItemDef {
            key: raw.key.clone(),
            en: raw.en.clone(),
            zh: raw.zh.clone(),
            is_fluid: raw.fluid || raw.gas,
        };
        let ghost old_b = builder@;
        proof {
            lemma_builder_consistent(&builder);
        }
        match builder.add_item(def) {
            Ok(_) => {},
            Err(source) => {
                proof {
                    lemma_index_dom_items(old_b, its[i as int].key@);
                    let ks = old_b.items.map_values(|x: ItemDef| x.key@);
                    let j = choose|j: int| 0 <= j < ks.len() && ks[j] == its[i as int].key@;
                    assert(item_keys(its)[j] == item_keys(its)[i as int]);
                    assert(item_keys(its.take(i as int))[j] == its[i as int].key@);
                    let e = LoadError::Item { index: i, source, span: raw.span };
                    assert(item_error_at(its, i as int, e));
                }
                return Err(LoadError::Item { index: i, source, span: raw.span });
            },
        }
        proof {
            let t1 = its.take(i + 1);
            assert(t1.map_values(|x: ItemToml| item_def_of(x)) =~= its.take(i as int).map_values(|x: ItemToml| item_def_of(x)).push(item_def_of(its[i as int])));
            lemma_index_dom_items(old_b, its[i as int].key@);
            assert forall|a: int, b: int| 0 <= a < t1.len() && 0 <= b < t1.len() && a != b implies #[trigger] item_keys(t1)[a] != #[trigger] item_keys(t1)[b] by {
                if a == i {
                    assert(old_b.items.map_values(|x: ItemDef| x.key@)[b] == item_keys(t1)[b]);
                } else if b == i {
                    assert(old_b.items.map_values(|x: ItemDef| x.key@)[a] == item_keys(t1)[a]);
                } else {
                    assert(item_keys(t1)[a] == item_keys(its.take(i as int))[a]);
                    assert(item_keys(t1)[b] == item_keys(its.take(i as int))[b]);
                }
            }
        }
        i = i + 1;
    }
    proof {
        assert(its.take(its.len() as int) =~= its);
    }
    let ghost item_index = builder@.item_index;
    let ghost item_defs = builder@.items;

    // machines
    let mut i: usize = 0;
    proof {
        assert(ms.take(0).map_values(|x: MachineToml| machine_def_of(x)) =~= Seq::<FacilityDef>::empty());
        assert(machine_keys(ms.take(0)).to_set() =~= builder@.facility_index.dom());
    }
    while i < facilities.machines.len()
        invariant
            its == items@,
            ms == facilities.machines@,
            f == *facilities,
            ms.len() < u32::MAX,
            i <= ms.len(),
            builder.wf(),
            builder@.items == item_defs,
            builder@.item_index == item_index,
            item_defs == its.map_values(|x: ItemToml| item_def_of(x)),
            distinct_keys(item_keys(its)),
            builder@.facilities == ms.take(i as int).map_values(|x: MachineToml| machine_def_of(x)),
            builder@.facility_index.dom() == machine_keys(ms.take(i as int)).to_set(),
            builder@.recipes.len() == 0,
            builder@.power_recipes.len() == 0,
            builder@.thermal_bank is None,
            distinct_keys(machine_keys(ms.take(i as int))),
            forall|q: int| 0 <= q < i ==> positive_u32(#[trigger] ms[q].power_w),
        decreases ms.len() - i,
    {
        let raw = &facilities.machines[i];
        let power_w = match check_positive("machines.power_w", i, raw.power_w, raw.span) {
            Ok(p) => p,
            Err(e) => {
                proof {
                    lemma_machines_prefix_ok(ms, i as int);
                    assert(machine_error_at(ms, i as int, e));
                }
                return Err(e);
            },
        };
        let def = FacilityDef {
            key: raw.key.clone(),
            kind: FacilityKind::Machine,
            power_w: Some(power_w),
            en: raw.en.clone(),
            zh: raw.zh.clone(),
            regions: facility_regions_from_machine_regions(raw.regions.as_slice()),
        };
        let ghost old_b = builder@;
        proof {
            lemma_builder_consistent(&builder);
        }
        match builder.add_facility(def) {
            Ok(_) => {},
            Err(source) => {
                proof {
                    let k = ms[i as int].key@;
                    assert(old_b.facility_index.contains_key(k));
                    assert(machine_keys(ms.take(i as int)).to_set().contains(k));
                    let j = choose|j: int| 0 <= j < machine_keys(ms.take(i as int)).len() && machine_keys(ms.take(i as int))[j] == k;
                    assert(facility_keys(f)[j] == facility_keys(f)[i as int]);
                    assert(machine_keys(ms)[j] == machine_keys(ms)[i as int]);
                    lemma_machines_prefix_ok(ms, i as int);
                    let e = LoadError::Machine { index: i, source, span: raw.span };
                    assert(machine_error_at(ms, i as int, e));
                }
                return Err(LoadError::Machine { index: i, source, span: raw.span });
            },
        }
        proof {
            let t0 = ms.take(i as int);
            let t1 = ms.take(i + 1);
            assert(def == machine_def_of(ms[i as int]));
            assert(t1.map_values(|x: MachineToml| machine_def_of(x)) =~= t0.map_values(|x: MachineToml| machine_def_of(x)).push(machine_def_of(ms[i as int])));
            assert(machine_keys(t1) =~= machine_keys(t0).push(ms[i as int].key@));
            crate::convert::convert::lemma_push_to_set(machine_keys(t0), ms[i as int].key@);
            assert(builder@.facility_index.dom() =~= machine_keys(t1).to_set());
            assert(!machine_keys(t0).to_set().contains(ms[i as int].key@));
            assert forall|a: int, b: int| 0 <= a < t1.len() && 0 <= b < t1.len() && a != b implies #[trigger] machine_keys(t1)[a] != #[trigger] machine_keys(t1)[b] by {
                if a == i {
                    assert(machine_keys(t0).contains(machine_keys(t1)[b]));
                } else if b == i {
                    assert(machine_keys(t0).contains(machine_keys(t1)[a]));
                } else {
                    assert(machine_keys(t1)[a] == machine_keys(t0)[a]);
                    assert(machine_keys(t1)[b] == machine_keys(t0)[b]);
                }
            }
        }
        i = i + 1;
    }
    proof {
        assert(ms.take(ms.len() as int) =~= ms);
        assert(machines_ok(ms));
    }

    // thermal bank
    let thermal = FacilityDef {
        key: facilities.thermal_bank.key.clone(),
        kind: FacilityKind::ThermalBank,
        power_w: None,
        en: facilities.thermal_bank.en.clone(),
        zh: facilities.thermal_bank.zh.clone(),
        regions: FacilityRegions::All,
    };
    let ghost before_thermal = builder@;
    proof {
        lemma_builder_consistent(&builder);
    }
    match builder.add_facility(thermal) {
        Ok(_) => {},
        Err(source) => {
            proof {
                let k = f.thermal_bank.key@;
                assert(before_thermal.facility_index.contains_key(k));
                assert(machine_keys(ms).to_set().contains(k));
                let j = choose|j: int| 0 <= j < machine_keys(ms).len() && machine_keys(ms)[j] == k;
                assert(facility_keys(f)[j] == facility_keys(f)[ms.len() as int]);
                assert(machine_keys(ms).contains(k));
            }
            return Err(LoadError::ThermalBank { source, span: facilities.thermal_bank.span });
        },
    }
    proof {
        assert(thermal == thermal_def_of(f));
        assert(!machine_keys(ms).to_set().contains(f.thermal_bank.key@));
        assert forall|a: int, b: int| 0 <= a < facility_keys(f).len() && 0 <= b < facility_keys(f).len() && a != b implies #[trigger] facility_keys(f)[a] != #[trigger] facility_keys(f)[b] by {
            if a == ms.len() {
                assert(machine_keys(ms).contains(facility_keys(f)[b]));
            } else if b == ms.len() {
                assert(machine_keys(ms).contains(facility_keys(f)[a]));
            } else {
                assert(facility_keys(f)[a] == machine_keys(ms)[a]);
                assert(facility_keys(f)[b] == machine_keys(ms)[b]);
            }
        }
        assert(builder@.facility_index.dom() =~= facility_keys(f).to_set()) by {
            crate::convert::convert::lemma_push_to_set(machine_keys(ms), f.thermal_bank.key@);
        }
    }
    let ghost fac_index = builder@.facility_index;
    let ghost fac_defs = builder@.facilities;
    let ghost tb = builder@.thermal_bank;
    proof {
        assert(tb matches Some(t) && t@ == ms.len());
        assert(item_defs.map_values(|x: ItemDef| x.key@) =~= item_keys(its));
        assert(fac_defs.map_values(|x: FacilityDef| x.key@) =~= facility_keys(f));
    }

    // recipes
    let mut i: usize = 0;
    while i < recipes.recipes.len()
        invariant
            its == items@,
            f == *facilities,
            rs == *recipes,
            ms == facilities.machines@,
            builder.wf(),
            builder@.items == item_defs,
            builder@.item_index == item_index,
            builder@.facilities == fac_defs,
            builder@.facility_index == fac_index,
            builder@.thermal_bank == tb,
            builder@.power_recipes.len() == 0,
            item_defs.map_values(|x: ItemDef| x.key@) == item_keys(its),
            fac_defs.map_values(|x: FacilityDef| x.key@) == facility_keys(f),
            fac_index.dom() == facility_keys(f).to_set(),
            distinct_keys(item_keys(its)),
            machines_ok(ms),
            !machine_keys(ms).contains(f.thermal_bank.key@),
            i <= rs.recipes@.len(),
            builder@.recipes.len() == i,
            forall|q: int| 0 <= q < i ==> #[trigger] recipe_loaded(item_defs, fac_defs, rs.recipes@[q], builder@.recipes[q]),
            forall|q: int| 0 <= q < i ==> #[trigger] recipe_loads(item_keys(its), facility_keys(f), rs.recipes@[q]),
        decreases rs.recipes@.len() - i,
    {
        let raw = &recipes.recipes[i];
        proof {
            lemma_builder_consistent(&builder);
        }
        let facility = match builder.facility_id(raw.facility.as_str()) {
            Some(id) => id,
            None => {
                let key = raw.facility.clone();
                proof {
                    assert(!facility_keys(f).to_set().contains(raw.facility@));
                    assert(!recipe_loads(item_keys(its), facility_keys(f), rs.recipes@[i as int]));
                    assert(recipe_error_at(item_keys(its), facility_keys(f), rs.recipes@, i as int, LoadError::UnknownFacility { key, span: raw.span }));
                }
                return Err(LoadError::UnknownFacility { key, span: raw.span });
            },
        };
        proof {
            let k = raw.facility@;
            assert(facility_keys(f).to_set().contains(k));
            let j = choose|j: int| 0 <= j < facility_keys(f).len() && facility_keys(f)[j] == k;
            assert(fac_defs[j].key@ == k);
            assert(fac_index.contains_key(fac_defs[j].key@));
        }
        let ghost keys = item_keys(its);
        let ingr_res = match resolve_stack_list(&builder, &raw.ingredients) {
            Ok(t) => t,
            Err(e) => {
                proof {
                    assert(builder_item_keys(builder@) == keys);
                    let j = choose|j: int| #[trigger] first_unknown_stack(builder_item_keys(builder@), raw.ingredients@, j) && e == LoadError::UnknownItem { key: raw.ingredients@[j].item, span: raw.ingredients@[j].span };
                    assert(!stack_keys_known(keys, raw.ingredients@));
                    assert(!recipe_loads(keys, facility_keys(f), rs.recipes@[i as int]));
                    assert(recipe_error_at(keys, facility_keys(f), rs.recipes@, i as int, e));
                }
                return Err(e);
            },
        };
        let prod_res = match resolve_stack_list(&builder, &raw.products) {
            Ok(t) => t,
            Err(e) => {
                proof {
                    assert(builder_item_keys(builder@) == keys);
                    let j = choose|j: int| #[trigger] first_unknown_stack(builder_item_keys(builder@), raw.products@, j) && e == LoadError::UnknownItem { key: raw.products@[j].item, span: raw.products@[j].span };
                    assert(!stack_keys_known(keys, raw.products@));
                    assert(!recipe_loads(keys, facility_keys(f), rs.recipes@[i as int]));
                    assert(recipe_error_at(keys, facility_keys(f), rs.recipes@, i as int, e));
                }
                return Err(e);
            },
        };
        proof {
            assert(builder_item_keys(builder@) == keys);
        }
        let time_s = match check_positive("recipes.time_s", i, raw.time_s, raw.span) {
            Ok(t) => t,
            Err(e) => {
                assert(!recipe_loads(keys, facility_keys(f), rs.recipes@[i as int]));
                assert(recipe_error_at(keys, facility_keys(f), rs.recipes@, i as int, e));
                return Err(e);
            },
        };
        proof {
            assert(resolved_counts(ingr_res@) =~= counts_of(raw.ingredients@));
            assert(resolved_counts(prod_res@) =~= counts_of(raw.products@));
        }
        let ingredients = match check_counts("recipes.ingredients.count", &ingr_res) {
            Ok(t) => t,
            Err(e) => {
                proof {
                    let j = choose|j: int| #[trigger] first_bad_count(resolved_counts(ingr_res@), j)
                        && e == LoadError::InvalidNumber { field: "recipes.ingredients.count", index: j as usize, value: ingr_res@[j].count, span: ingr_res@[j].span };
                    assert(first_bad_count(counts_of(raw.ingredients@), j));
                    assert(!counts_ok(counts_of(raw.ingredients@)));
                    assert(!recipe_loads(keys, facility_keys(f), rs.recipes@[i as int]));
                    assert(recipe_error_at(keys, facility_keys(f), rs.recipes@, i as int, e));
                }
                return Err(e);
            },
        };
        let products = match check_counts("recipes.products.count", &prod_res) {
            Ok(t) => t,
            Err(e) => {
                proof {
                    let j = choose|j: int| #[trigger] first_bad_count(resolved_counts(prod_res@), j)
                        && e == LoadError::InvalidNumber { field: "recipes.products.count", index: j as usize, value: prod_res@[j].count, span: prod_res@[j].span };
                    assert(first_bad_count(counts_of(raw.products@), j));
                    assert(!counts_ok(counts_of(raw.products@)));
                    assert(!recipe_loads(keys, facility_keys(f), rs.recipes@[i as int]));
                    assert(recipe_error_at(keys, facility_keys(f), rs.recipes@, i as int, e));
                }
                return Err(e);
            },
        };
        proof {
            lemma_builder_consistent(&builder);
            lemma_stacks_resolved(builder@, its, raw.ingredients@, ingr_res@, ingredients@);
            lemma_stacks_resolved(builder@, its, raw.products@, prod_res@, products@);
        }
        let recipe = Recipe { facility, time_s, ingredients, products };
        let ghost old_b = builder@;
        builder.push_recipe(recipe);
        proof {
            assert(builder@.recipes[i as int] == recipe);
            assert forall|q: int| 0 <= q < i + 1 implies #[trigger] recipe_loaded(item_defs, fac_defs, rs.recipes@[q], builder@.recipes[q]) by {
                if q < i {
                    assert(builder@.recipes[q] == old_b.recipes[q]);
                }
            }
        }
        i = i + 1;
    }

    // power recipes
    let mut i: usize = 0;
    while i < recipes.power_recipes.len()
        invariant
            its == items@,
            f == *facilities,
            rs == *recipes,
            ms == facilities.machines@,
            builder.wf(),
            builder@.items == item_defs,
            builder@.item_index == item_index,
            builder@.facilities == fac_defs,
            builder@.facility_index == fac_index,
            builder@.thermal_bank == tb,
            builder@.recipes.len() == rs.recipes@.len(),
            forall|q: int| 0 <= q < rs.recipes@.len() ==> #[trigger] recipe_loaded(item_defs, fac_defs, rs.recipes@[q], builder@.recipes[q]),
            item_defs.map_values(|x: ItemDef| x.key@) == item_keys(its),
            forall|q: int| 0 <= q < rs.recipes@.len() ==> #[trigger] recipe_loads(item_keys(its), facility_keys(f), rs.recipes@[q]),
            distinct_keys(item_keys(its)),
            machines_ok(ms),
            !machine_keys(ms).contains(f.thermal_bank.key@),
            i <= rs.power_recipes@.len(),
            builder@.power_recipes.len() == i,
            forall|q: int| 0 <= q < i ==> #[trigger] power_recipe_loaded(item_defs, rs.power_recipes@[q], builder@.power_recipes[q]),
            forall|q: int| 0 <= q < i ==> #[trigger] power_recipe_loads(item_keys(its), rs.power_recipes@[q]),
        decreases rs.power_recipes@.len() - i,
    {
        let raw = &recipes.power_recipes[i];
        proof {
            lemma_builder_consistent(&builder);
            lemma_index_dom_items(builder@, raw.ingredient.item@);
        }
        let resolved = match resolve_stack(&builder, &raw.ingredient) {
            Ok(s) => s,
            Err(e) => {
                assert(!power_recipe_loads(item_keys(its), rs.power_recipes@[i as int]));
                assert(power_recipe_error_at(item_keys(its), rs.power_recipes@, i as int, e));
                return Err(e);
            },
        };
        let count = match check_positive("power_recipes.ingredient.count", i, resolved.count, resolved.span) {
            Ok(c) => c,
            Err(e) => {
                assert(!power_recipe_loads(item_keys(its), rs.power_recipes@[i as int]));
                assert(power_recipe_error_at(item_keys(its), rs.power_recipes@, i as int, e));
                return Err(e);
            },
        };
        let ingredient = Stack { item: resolved.item, count };
        let power_w = match check_positive("power_recipes.power_w", i, raw.power_w, raw.span) {
            Ok(p) => p,
            Err(e) => {
                assert(!power_recipe_loads(item_keys(its), rs.power_recipes@[i as int]));
                assert(power_recipe_error_at(item_keys(its), rs.power_recipes@, i as int, e));
                return Err(e);
            },
        };
        let time_s = match check_positive("power_recipes.time_s", i, raw.time_s, raw.span) {
            Ok(t) => t,
            Err(e) => {
                assert(!power_recipe_loads(item_keys(its), rs.power_recipes@[i as int]));
                assert(power_recipe_error_at(item_keys(its), rs.power_recipes@, i as int, e));
                return Err(e);
            },
        };
        let ghost old_b = builder@;
        builder.push_power_recipe(PowerRecipe { ingredient, power_w, time_s });
        proof {
            assert forall|q: int| 0 <= q < i + 1 implies #[trigger] power_recipe_loaded(item_defs, rs.power_recipes@[q], builder@.power_recipes[q]) by {
                if q < i {
                    assert(builder@.power_recipes[q] == old_b.power_recipes[q]);
                }
            }
        }
        i = i + 1;
    }
    let ghost final_b = builder@;
    let c = match builder.build() {
        Ok(c) => c,
        Err(e) => {
            return Err(LoadError::ThermalBank { source: e, span: facilities.thermal_bank.span });
        },
    };
    proof {
        assert forall|q: int| 0 <= q < c@.recipes.len() implies #[trigger] c@.recipes[q].facility@ < c@.facilities.len() by {
            assert(recipe_loaded(item_defs, fac_defs, rs.recipes@[q], c@.recipes[q]));
        }
    }
    proof {
        law_loaded_catalog_keeps_record_fields(its, f, rs, c);
    }
    Ok(c)
}

/// A loaded catalog keeps every record's texts and numbers field for field: item `i`
/// has the key, English and Chinese names of item record `i` and is a fluid when the
/// record is marked fluid or gas; machine `i` has machine record `i`'s key, names and
/// power; the thermal bank comes last with its record's key and names; and each
/// recipe keeps its facility key and time.
pub proof fn law_loaded_catalog_keeps_record_fields(
    items: Seq<ItemToml>,
    f: FacilitiesToml,
    rs: RecipesToml,
    c: Catalog,
)
    requires
        load_ok(items, f, rs),
        catalog_of(items, f, rs, c),
    ensures
        c@.items.len() == items.len(),
        forall|i: int|
            0 <= i < items.len() ==> {
                let d = #[trigger] c@.items[i];
                &&& d.key == items[i].key
                &&& d.en == items[i].en
                &&& d.zh == items[i].zh
                &&& d.is_fluid == (items[i].fluid || items[i].gas)
            },
        c@.facilities.len() == f.machines@.len() + 1,
        forall|i: int|
            0 <= i < f.machines@.len() ==> {
                let d = #[trigger] c@.facilities[i];
                &&& d.key == f.machines@[i].key
                &&& d.en == f.machines@[i].en
                &&& d.zh == f.machines@[i].zh
                &&& d.kind == FacilityKind::Machine
                &&& d.power_w == Some(f.machines@[i].power_w as u32)
                &&& d.power_w.unwrap() == f.machines@[i].power_w
            },
        c@.facilities[f.machines@.len() as int].key == f.thermal_bank.key,
        c@.facilities[f.machines@.len() as int].en == f.thermal_bank.en,
        c@.facilities[f.machines@.len() as int].zh == f.thermal_bank.zh,
        c@.facilities[f.machines@.len() as int].kind == FacilityKind::ThermalBank,
        c@.recipes.len() == rs.recipes@.len(),
        forall|i: int|
            0 <= i < rs.recipes@.len() ==> {
                let r = #[trigger] c@.recipes[i];
                &&& c@.facilities[r.facility@ as int].key@ == rs.recipes@[i].facility@
                &&& r.time_s == rs.recipes@[i].time_s
            },
{
    let m = f.machines@;
    assert forall|i: int| 0 <= i < items.len() implies {
        let d = #[trigger] c@.items[i];
        &&& d.key == items[i].key
        &&& d.en == items[i].en
        &&& d.zh == items[i].zh
        &&& d.is_fluid == (items[i].fluid || items[i].gas)
    } by {
        assert(c@.items[i] == item_def_of(items[i]));
    }
    assert forall|i: int| 0 <= i < m.len() implies {
        let d = #[trigger] c@.facilities[i];
        &&& d.key == m[i].key
        &&& d.en == m[i].en
        &&& d.zh == m[i].zh
        &&& d.kind == FacilityKind::Machine
        &&& d.power_w == Some(m[i].power_w as u32)
        &&& d.power_w.unwrap() == m[i].power_w
    } by {
        assert(c@.facilities[i] == machine_def_of(m[i]));
        assert(positive_u32(m[i].power_w));
    }
    assert(c@.facilities[m.len() as int] == thermal_def_of(f));
    assert forall|i: int| 0 <= i < rs.recipes@.len() implies {
        let r = #[trigger] c@.recipes[i];
        &&& c@.facilities[r.facility@ as int].key@ == rs.recipes@[i].facility@
        &&& r.time_s == rs.recipes@[i].time_s
    } by {
        assert(recipe_loaded(c@.items, c@.facilities, rs.recipes@[i], c@.recipes[i]));
    }
}

} // verus!
