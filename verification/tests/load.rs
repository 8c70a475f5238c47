use end_model::load::assemble::{catalog_from_tables, resolve_stack, resolve_stack_list};
use end_model::load::error::{LoadError, Span};
use end_model::load::regions::{facility_regions_from_machine_regions, FacilityRegions, Region};
use end_model::load::schema::{
    FacilitiesToml, ItemToml, MachineToml, PowerRecipeToml, RecipeToml, RecipesToml, StackToml,
    ThermalBankToml,
};
use end_model::{CatalogBuildError, CatalogBuilder, FacilityKind, ItemDef};

const NOWHERE: Span = Span { start: 0, end: 0 };

fn at(start: usize, end: usize) -> Span {
    Span { start, end }
}

fn item(key: &str) -> ItemToml {
    ItemToml { key: key.to_string(), en: key.to_string(), zh: format!("{key}_zh"), fluid: false, gas: false, span: NOWHERE }
}

fn machine(key: &str, power_w: i64) -> MachineToml {
    MachineToml {
        key: key.to_string(),
        power_w,
        en: key.to_string(),
        zh: format!("{key}_zh"),
        regions: vec![],
        span: NOWHERE,
    }
}

fn power(ingredient: StackToml, power_w: i64, time_s: i64) -> PowerRecipeToml {
    PowerRecipeToml { ingredient, power_w, time_s, span: NOWHERE }
}

fn facilities(machines: Vec<MachineToml>, bank: &str) -> FacilitiesToml {
    FacilitiesToml {
        machines,
        thermal_bank: ThermalBankToml {
            key: bank.to_string(),
            en: bank.to_string(),
            zh: "bank_zh".to_string(),
            span: NOWHERE,
        },
    }
}

fn stack(item: &str, count: i64) -> StackToml {
    StackToml { item: item.to_string(), count, span: NOWHERE }
}

fn smelt(facility: &str, time_s: i64, ore: &str) -> RecipeToml {
    RecipeToml {
        facility: facility.to_string(),
        time_s,
        ingredients: vec![stack(ore, 1)],
        products: vec![stack("Ingot", 2)],
        span: NOWHERE,
    }
}

#[test]
fn catalog_from_tables_resolves_keys_in_order() {
    let items = vec![item("Ore"), item("Ingot")];
    let facs = facilities(vec![machine("Smelter", 10)], "Thermal Bank");
    let recipes = RecipesToml {
        recipes: vec![smelt("Smelter", 60, "Ore")],
        power_recipes: vec![power(stack("Ore", 1), 50, 40)],
    };
    let c = catalog_from_tables(&items, &facs, &recipes).expect("valid tables");
    assert_eq!(c.items().len(), 2);
    assert_eq!(c.facilities().len(), 2);
    assert_eq!(c.facilities()[0].power_w, Some(10));
    assert_eq!(c.facilities()[1].kind, FacilityKind::ThermalBank);
    assert_eq!(c.thermal_bank().as_u32(), 1);
    let r = &c.recipes()[0];
    assert_eq!(r.facility.as_u32(), 0);
    assert_eq!(r.time_s, 60);
    assert_eq!(r.ingredients[0].item, c.item_id("Ore").unwrap());
    assert_eq!(r.products[0].item, c.item_id("Ingot").unwrap());
    assert_eq!(r.products[0].count, 2);
    assert_eq!(c.power_recipes()[0].power_w, 50);
}

#[test]
fn recipes_may_run_in_the_thermal_bank_facility() {
    let items = vec![item("Ore"), item("Ingot")];
    let facs = facilities(vec![], "Bank");
    let recipes = RecipesToml { recipes: vec![smelt("Bank", 5, "Ore")], power_recipes: vec![] };
    let c = catalog_from_tables(&items, &facs, &recipes).unwrap();
    assert_eq!(c.recipes()[0].facility, c.thermal_bank());
}

#[test]
fn unknown_facility_and_item_keys_are_reported() {
    let items = vec![item("Ore"), item("Ingot")];
    let facs = facilities(vec![machine("Smelter", 10)], "Thermal Bank");
    let recipes = RecipesToml { recipes: vec![smelt("Forge", 60, "Ore")], power_recipes: vec![] };
    match catalog_from_tables(&items, &facs, &recipes) {
        Err(LoadError::UnknownFacility { key, .. }) => assert_eq!(key, "Forge"),
        other => panic!("unexpected {other:?}"),
    }
    let recipes = RecipesToml { recipes: vec![smelt("Smelter", 60, "Gold")], power_recipes: vec![] };
    match catalog_from_tables(&items, &facs, &recipes) {
        Err(LoadError::UnknownItem { key, .. }) => assert_eq!(key, "Gold"),
        other => panic!("unexpected {other:?}"),
    }
}

#[test]
fn duplicate_keys_are_reported_with_their_position() {
    let items = vec![item("Ore"), item("Ore")];
    let facs = facilities(vec![], "Thermal Bank");
    let recipes = RecipesToml { recipes: vec![], power_recipes: vec![] };
    match catalog_from_tables(&items, &facs, &recipes) {
        Err(LoadError::Item { index, source: CatalogBuildError::DuplicateItemKey(k), .. }) => {
            assert_eq!(index, 1);
            assert_eq!(k, "Ore");
        }
        other => panic!("unexpected {other:?}"),
    }
    let facs = facilities(vec![machine("Bank", 3)], "Bank");
    match catalog_from_tables(&vec![item("Ore")], &facs, &recipes) {
        Err(LoadError::ThermalBank { source: CatalogBuildError::DuplicateFacilityKey(k), .. }) => assert_eq!(k, "Bank"),
        other => panic!("unexpected {other:?}"),
    }
    let facs = facilities(vec![machine("M", 3), machine("M", 4)], "Bank");
    match catalog_from_tables(&vec![item("Ore")], &facs, &recipes) {
        Err(LoadError::Machine { index, .. }) => assert_eq!(index, 1),
        other => panic!("unexpected {other:?}"),
    }
}

#[test]
fn numbers_must_be_positive_u32() {
    let items = vec![item("Ore"), item("Ingot")];
    let facs = facilities(vec![machine("Smelter", 0)], "Thermal Bank");
    let recipes = RecipesToml { recipes: vec![], power_recipes: vec![] };
    match catalog_from_tables(&items, &facs, &recipes) {
        Err(LoadError::InvalidNumber { field, index, value, .. }) => {
            assert_eq!((field, index, value), ("machines.power_w", 0, 0));
        }
        other => panic!("unexpected {other:?}"),
    }
    let facs = facilities(vec![machine("Smelter", 1)], "Thermal Bank");
    let recipes = RecipesToml { recipes: vec![smelt("Smelter", 4294967296, "Ore")], power_recipes: vec![] };
    match catalog_from_tables(&items, &facs, &recipes) {
        Err(LoadError::InvalidNumber { field, value, .. }) => {
            assert_eq!((field, value), ("recipes.time_s", 4294967296));
        }
        other => panic!("unexpected {other:?}"),
    }
    let recipes = RecipesToml {
        recipes: vec![],
        power_recipes: vec![power(stack("Ore", 1), -1, 1)],
    };
    match catalog_from_tables(&items, &facs, &recipes) {
        Err(LoadError::InvalidNumber { field, value, .. }) => assert_eq!((field, value), ("power_recipes.power_w", -1)),
        other => panic!("unexpected {other:?}"),
    }
}

#[test]
fn resolving_stacks_against_a_builder() {
    let mut b = CatalogBuilder::new();
    let ore = b.add_item(ItemDef { key: "Ore".into(), en: "Ore".into(), zh: "o".into(), is_fluid: false }).unwrap();
    let s = resolve_stack(&b, &stack("Ore", 3)).unwrap();
    assert_eq!((s.item, s.count), (ore, 3));
    match resolve_stack(&b, &stack("Gold", 3)) {
        Err(LoadError::UnknownItem { key, .. }) => assert_eq!(key, "Gold"),
        other => panic!("unexpected {other:?}"),
    }
    // the count is passed on unchecked: numbers are checked after all keys resolve
    let z = resolve_stack(&b, &stack("Ore", 0)).unwrap();
    assert_eq!((z.item, z.count), (ore, 0));
    let list = resolve_stack_list(&b, &vec![stack("Ore", 1), stack("Ore", 2)]).unwrap();
    assert_eq!(list.len(), 2);
    assert_eq!(list[1].count, 2);
    match resolve_stack_list(&b, &vec![stack("Ore", 0), stack("X", 2), stack("Y", 2)]) {
        Err(LoadError::UnknownItem { key, .. }) => assert_eq!(key, "X"),
        other => panic!("unexpected {other:?}"),
    }
}

#[test]
fn machine_regions_fold_into_availability() {
    assert_eq!(facility_regions_from_machine_regions(&[]), FacilityRegions::All);
    assert_eq!(facility_regions_from_machine_regions(&[Region::FourthValley]), FacilityRegions::FourthValleyOnly);
    assert_eq!(facility_regions_from_machine_regions(&[Region::Wuling, Region::Wuling]), FacilityRegions::WulingOnly);
    assert_eq!(facility_regions_from_machine_regions(&[Region::Wuling, Region::FourthValley]), FacilityRegions::All);
}

#[test]
fn the_first_record_that_does_not_fit_gives_the_error() {
    // a duplicate item wins over a bad machine power
    let items = vec![item("Ore"), item("Ingot"), item("Ore")];
    let facs = facilities(vec![machine("Smelter", 0)], "Thermal Bank");
    let recipes = RecipesToml { recipes: vec![], power_recipes: vec![] };
    match catalog_from_tables(&items, &facs, &recipes) {
        Err(LoadError::Item { index, .. }) => assert_eq!(index, 2),
        other => panic!("unexpected {other:?}"),
    }
    // a machine's power is checked before its key
    let items = vec![item("Ore"), item("Ingot")];
    let facs = facilities(vec![machine("M", 1), machine("M", 0)], "Bank");
    match catalog_from_tables(&items, &facs, &recipes) {
        Err(LoadError::InvalidNumber { field, index, value, .. }) => {
            assert_eq!((field, index, value), ("machines.power_w", 1, 0))
        }
        other => panic!("unexpected {other:?}"),
    }
    // within a recipe, keys resolve before numbers are checked
    let facs = facilities(vec![machine("Smelter", 1)], "Thermal Bank");
    let bad = |time_s: i64, third: &str| RecipeToml {
        facility: "Smelter".to_string(),
        time_s,
        ingredients: vec![stack("Ore", 1), stack("Ore", 0), stack(third, 1)],
        products: vec![stack("Ingot", 0)],
        span: NOWHERE,
    };
    let recipes = RecipesToml { recipes: vec![smelt("Smelter", 1, "Ore"), bad(0, "Gold")], power_recipes: vec![] };
    match catalog_from_tables(&items, &facs, &recipes) {
        Err(LoadError::UnknownItem { key, .. }) => assert_eq!(key, "Gold"),
        other => panic!("unexpected {other:?}"),
    }
    let recipes = RecipesToml { recipes: vec![bad(0, "Ingot")], power_recipes: vec![] };
    match catalog_from_tables(&items, &facs, &recipes) {
        Err(LoadError::InvalidNumber { field, index, value, .. }) => assert_eq!((field, index, value), ("recipes.time_s", 0, 0)),
        other => panic!("unexpected {other:?}"),
    }
    let recipes = RecipesToml { recipes: vec![bad(3, "Ingot")], power_recipes: vec![] };
    match catalog_from_tables(&items, &facs, &recipes) {
        Err(LoadError::InvalidNumber { field, index, value, .. }) => {
            assert_eq!((field, index, value), ("recipes.ingredients.count", 1, 0))
        }
        other => panic!("unexpected {other:?}"),
    }
    // recipes come before power recipes
    let recipes = RecipesToml {
        recipes: vec![smelt("Smelter", 0, "Ore")],
        power_recipes: vec![power(stack("Gold", 1), 1, 1)],
    };
    match catalog_from_tables(&items, &facs, &recipes) {
        Err(LoadError::InvalidNumber { field, index, value, .. }) => {
            assert_eq!((field, index, value), ("recipes.time_s", 0, 0))
        }
        other => panic!("unexpected {other:?}"),
    }
    let recipes = RecipesToml {
        recipes: vec![],
        power_recipes: vec![
            power(stack("Ore", 1), 1, 1),
            power(stack("Ore", 1), 1, 0),
        ],
    };
    match catalog_from_tables(&items, &facs, &recipes) {
        Err(LoadError::InvalidNumber { field, index, value, .. }) => {
            assert_eq!((field, index, value), ("power_recipes.time_s", 1, 0))
        }
        other => panic!("unexpected {other:?}"),
    }
}

#[test]
fn fluid_and_gas_items_are_fluids() {
    let mut steam = item("Steam");
    steam.gas = true;
    let mut water = item("Water");
    water.fluid = true;
    let items = vec![steam, item("Ore"), water];
    let recipes = RecipesToml { recipes: vec![], power_recipes: vec![] };
    let c = catalog_from_tables(&items, &facilities(vec![], "Thermal Bank"), &recipes).unwrap();
    let flags: Vec<(&str, bool)> = c.items().iter().map(|d| (d.key.as_str(), d.is_fluid)).collect();
    assert_eq!(flags, vec![("Steam", true), ("Ore", false), ("Water", true)]);
    assert!(c.recipes().is_empty());
}

#[test]
fn machine_regions_are_carried_into_the_catalog() {
    let mut valley = machine("Valley Smelter", 5);
    valley.regions = vec![Region::FourthValley];
    let mut both = machine("Smelter", 5);
    both.regions = vec![Region::Wuling, Region::FourthValley];
    let mut wuling = machine("Wuling Smelter", 5);
    wuling.regions = vec![Region::Wuling, Region::Wuling];
    let facs = facilities(vec![valley, both, wuling], "Thermal Bank");
    let recipes = RecipesToml { recipes: vec![], power_recipes: vec![] };
    let c = catalog_from_tables(&vec![item("Ore")], &facs, &recipes).unwrap();
    let regions: Vec<FacilityRegions> = c.facilities().iter().map(|f| f.regions).collect();
    assert_eq!(
        regions,
        vec![FacilityRegions::FourthValleyOnly, FacilityRegions::All, FacilityRegions::WulingOnly, FacilityRegions::All]
    );
}

#[test]
fn load_errors_point_at_the_record() {
    let mut second = item("Ore");
    second.span = at(20, 35);
    let recipes = RecipesToml { recipes: vec![], power_recipes: vec![] };
    match catalog_from_tables(&vec![item("Ore"), second], &facilities(vec![], "Bank"), &recipes) {
        Err(LoadError::Item { index, span, .. }) => assert_eq!((index, span), (1, at(20, 35))),
        other => panic!("unexpected {other:?}"),
    }
    let mut gold = stack("Gold", 1);
    gold.span = at(7, 9);
    let mut r = smelt("Bank", 1, "Ore");
    r.ingredients.push(gold);
    let recipes = RecipesToml { recipes: vec![r], power_recipes: vec![] };
    match catalog_from_tables(&vec![item("Ore"), item("Ingot")], &facilities(vec![], "Bank"), &recipes) {
        Err(LoadError::UnknownItem { key, span }) => assert_eq!((key.as_str(), span), ("Gold", at(7, 9))),
        other => panic!("unexpected {other:?}"),
    }
    let mut r = smelt("Forge", 1, "Ore");
    r.span = at(100, 140);
    let recipes = RecipesToml { recipes: vec![r], power_recipes: vec![] };
    match catalog_from_tables(&vec![item("Ore"), item("Ingot")], &facilities(vec![], "Bank"), &recipes) {
        Err(LoadError::UnknownFacility { span, .. }) => assert_eq!(span, at(100, 140)),
        other => panic!("unexpected {other:?}"),
    }
}
