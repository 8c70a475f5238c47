use end_model::load::regions::FacilityRegions;
use end_model::{
    Catalog, CatalogBuildError, CatalogBuilder, FacilityDef, FacilityKind, ItemDef, PowerRecipe,
    Recipe, Stack, P_CORE_W,
};

fn item(key: &str) -> ItemDef {
    ItemDef { key: key.to_string(), en: key.to_string(), zh: format!("{key}_zh"), is_fluid: false }
}

fn machine(key: &str, power: u32) -> FacilityDef {
    FacilityDef {
        key: key.to_string(),
        kind: FacilityKind::Machine,
        power_w: Some(power),
        en: key.to_string(),
        zh: format!("{key}_zh"),
        regions: FacilityRegions::All,
    }
}

fn bank(key: &str) -> FacilityDef {
    FacilityDef {
        key: key.to_string(),
        kind: FacilityKind::ThermalBank,
        power_w: None,
        en: key.to_string(),
        zh: format!("{key}_zh"),
        regions: FacilityRegions::All,
    }
}

fn sample() -> Catalog {
    let mut b = Catalog::builder();
    let ore = b.add_item(item("Ore")).unwrap();
    let ingot = b.add_item(item("Ingot")).unwrap();
    let smelter = b.add_facility(machine("Smelter", 10)).unwrap();
    b.add_facility(bank("Thermal Bank")).unwrap();
    b.push_recipe(Recipe {
        facility: smelter,
        time_s: 60,
        ingredients: vec![Stack { item: ore, count: 1 }],
        products: vec![Stack { item: ingot, count: 1 }],
    });
    b.push_power_recipe(PowerRecipe { ingredient: Stack { item: ore, count: 1 }, power_w: 50, time_s: 40 });
    b.build().expect("thermal bank present")
}

#[test]
fn builder_mints_dense_ids_and_resolves_keys() {
    let mut b = CatalogBuilder::new();
    let a = b.add_item(item("A")).unwrap();
    let c = b.add_item(item("C")).unwrap();
    assert_eq!(a.as_u32(), 0);
    assert_eq!(c.as_u32(), 1);
    assert_eq!(b.item_id("A"), Some(a));
    assert_eq!(b.item_id("C"), Some(c));
    assert_eq!(b.item_id("B"), None);
    let m = b.add_facility(machine("M", 5)).unwrap();
    assert_eq!(m.as_u32(), 0);
    assert_eq!(b.facility_id("M"), Some(m));
    assert_eq!(b.thermal_bank(), None);
    let t = b.add_facility(bank("T")).unwrap();
    assert_eq!(t.as_u32(), 1);
    assert_eq!(b.thermal_bank(), Some(t));
}

#[test]
fn duplicate_item_key_is_refused() {
    let mut b = CatalogBuilder::new();
    b.add_item(item("A")).unwrap();
    match b.add_item(item("A")) {
        Err(CatalogBuildError::DuplicateItemKey(k)) => assert_eq!(k, "A"),
        other => panic!("unexpected {other:?}"),
    }
    let next = b.add_item(item("B")).unwrap();
    assert_eq!(next.as_u32(), 1);
}

#[test]
fn duplicate_facility_key_is_refused() {
    let mut b = CatalogBuilder::new();
    b.add_facility(machine("M", 1)).unwrap();
    match b.add_facility(machine("M", 2)) {
        Err(CatalogBuildError::DuplicateFacilityKey(k)) => assert_eq!(k, "M"),
        other => panic!("unexpected {other:?}"),
    }
}

#[test]
fn second_thermal_bank_is_refused_and_leaves_no_trace() {
    let mut b = CatalogBuilder::new();
    let first = b.add_facility(bank("T1")).unwrap();
    assert_eq!(first.as_u32(), 0);
    assert!(matches!(b.add_facility(bank("T2")), Err(CatalogBuildError::MultipleThermalBanks)));
    assert_eq!(b.thermal_bank(), Some(first));
    assert_eq!(b.facility_id("T2"), None);
    assert!(matches!(b.add_facility(bank("T2")), Err(CatalogBuildError::MultipleThermalBanks)));
    assert!(matches!(b.add_facility(bank("T1")), Err(CatalogBuildError::DuplicateFacilityKey(_))));
    let m = b.add_facility(machine("M", 3)).unwrap();
    assert_eq!(m.as_u32(), 1);
    let c = b.build().unwrap();
    assert_eq!(c.facilities().len(), 2);
    assert_eq!(c.facility_id("T2"), None);
}

#[test]
fn build_requires_a_thermal_bank() {
    let mut b = CatalogBuilder::new();
    b.add_item(item("A")).unwrap();
    b.add_facility(machine("M", 1)).unwrap();
    assert!(matches!(b.build(), Err(CatalogBuildError::MissingThermalBank)));
}

#[test]
fn catalog_getters_return_what_was_added() {
    let c = sample();
    assert_eq!(c.core_power_w(), 200);
    assert_eq!(P_CORE_W, 200);
    assert_eq!(c.items().len(), 2);
    assert_eq!(c.facilities().len(), 2);
    assert_eq!(c.recipes().len(), 1);
    assert_eq!(c.power_recipes().len(), 1);
    let ore = c.item_id("Ore").unwrap();
    assert_eq!(c.item(ore).unwrap().zh, "Ore_zh");
    let tb = c.thermal_bank();
    assert_eq!(c.facility(tb).unwrap().kind, FacilityKind::ThermalBank);
    assert_eq!(c.facility_id("Thermal Bank"), Some(tb));
    assert_eq!(c.facility_id("Nope"), None);
    assert_eq!(c.recipe(0).unwrap().time_s, 60);
    assert!(c.recipe(1).is_none());
    assert_eq!(c.power_recipe(0).unwrap().power_w, 50);
    assert!(c.power_recipe(3).is_none());
}

#[test]
fn recipes_with_ids_pair_each_recipe_with_its_position() {
    let c = sample();
    let with_id = c.recipes_with_id();
    assert_eq!(with_id.len(), 1);
    assert_eq!(with_id[0].0, 0);
    assert_eq!(with_id[0].1.time_s, 60);
    let with_fac = c.recipes_with_id_and_facility();
    assert_eq!(with_fac[0].2.key, "Smelter");
    let power = c.power_recipes_with_id();
    assert_eq!(power.len(), 1);
    assert_eq!(power[0].0, 0);
    assert_eq!(power[0].1.time_s, 40);
}

#[test]
fn build_error_messages() {
    assert_eq!(CatalogBuildError::DuplicateItemKey("x".to_string()).message(), "duplicate item key: x");
    assert_eq!(
        CatalogBuildError::DuplicateFacilityKey("y".to_string()).message(),
        "duplicate facility key: y"
    );
    assert_eq!(CatalogBuildError::MissingThermalBank.message(), "missing thermal bank facility");
    assert_eq!(
        CatalogBuildError::MultipleThermalBanks.message(),
        "multiple thermal banks are not allowed"
    );
}

#[test]
fn items_keep_resolving_and_stay_in_order_across_calls() {
    let mut b = CatalogBuilder::new();
    let a = b.add_item(item("A")).unwrap();
    assert!(b.add_item(item("A")).is_err());
    b.add_facility(machine("M", 1)).unwrap();
    let c = b.add_item(item("C")).unwrap();
    b.add_facility(bank("T")).unwrap();
    assert!(matches!(b.add_facility(bank("U")), Err(CatalogBuildError::MultipleThermalBanks)));
    assert_eq!((a.as_u32(), c.as_u32()), (0, 1));
    assert_eq!(b.item_id("A"), Some(a));
    assert_eq!(b.item_id("C"), Some(c));
    assert_eq!(b.item_id("B"), None);
    let cat = b.build().unwrap();
    let keys: Vec<&str> = cat.items().iter().map(|d| d.key.as_str()).collect();
    assert_eq!(keys, vec!["A", "C"]);
    let copy = cat.clone();
    assert_eq!(copy.item_id("C"), Some(c));
    assert_eq!(copy.facilities().len(), 2);
}
