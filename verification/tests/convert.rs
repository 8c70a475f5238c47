use end_model::convert::convert::{convert_tables, thermal_to_power};
use end_model::convert::error::{ConvertError, SchemaFile};
use end_model::convert::i18n::{facility_zh, item_zh, split_parenthesized};
use end_model::convert::model::{V1Recipe, V1Stack};
use end_model::convert::validate::{check_recipe_lists, check_recipes_loaded, parse_positive_u32};

fn stack(item: &str, count: i64) -> V1Stack {
    V1Stack { item: item.to_string(), count }
}

fn recipe(facility: &str, time_s: u32, ingredients: Vec<V1Stack>, products: Vec<V1Stack>) -> V1Recipe {
    V1Recipe { ingredients, products, facility: facility.to_string(), time_s }
}

fn power(entries: &[(&str, i64)]) -> Vec<(String, i64)> {
    entries.iter().map(|(k, v)| (k.to_string(), *v)).collect()
}

#[test]
fn convert_tables_builds_items_machines_and_recipes() {
    let recipes = vec![recipe(
        "Refining Unit",
        1,
        vec![stack("Originium Ore", 1)],
        vec![stack("Originium Powder", 1)],
    )];
    let t = convert_tables(&power(&[("Refining Unit", 120)]), &recipes).expect("convert should succeed");
    let keys: Vec<&str> = t.items.items.iter().map(|i| i.key.as_str()).collect();
    assert_eq!(keys, vec!["Originium Ore", "Originium Powder"]);
    assert_eq!(t.items.items[0].en, "Originium Ore");
    assert_eq!(t.items.items[0].zh, "源石矿");
    assert_eq!(t.items.items[1].zh, "源石粉");
    assert_eq!(t.facilities.machines.len(), 1);
    assert_eq!(t.facilities.machines[0].key, "Refining Unit");
    assert_eq!(t.facilities.machines[0].power_w, 120);
    assert_eq!(t.facilities.machines[0].zh, "精炼炉");
    assert_eq!(t.facilities.thermal_bank.key, "Thermal Bank");
    assert_eq!(t.facilities.thermal_bank.zh, "热容池");
    assert_eq!(t.recipes.recipes.len(), 1);
    assert_eq!(t.recipes.recipes[0].facility, "Refining Unit");
    assert_eq!(t.recipes.recipes[0].ingredients[0].item, "Originium Ore");
    assert!(t.recipes.power_recipes.is_empty());
}

#[test]
fn thermal_bank_recipes_become_power_rows_sorted_by_fuel() {
    let recipes = vec![
        recipe("Thermal Bank", 40, vec![stack("SC Valley Battery", 1)], vec![stack("Power", 1100)]),
        recipe("Thermal Bank", 40, vec![stack("LC Valley Battery", 1)], vec![stack("Power", 220)]),
    ];
    let t = convert_tables(&power(&[]), &recipes).expect("convert should succeed");
    assert!(t.recipes.recipes.is_empty());
    assert!(t.facilities.machines.is_empty());
    let fuels: Vec<&str> = t.recipes.power_recipes.iter().map(|p| p.ingredient.item.as_str()).collect();
    assert_eq!(fuels, vec!["LC Valley Battery", "SC Valley Battery"]);
    assert_eq!(t.recipes.power_recipes[0].power_w, 220);
    assert_eq!(t.items.items.len(), 2);
}

#[test]
fn production_rows_sort_by_facility_then_time_and_stay_stable() {
    let recipes = vec![
        recipe("Shredding Unit", 2, vec![stack("Ferrium", 1)], vec![stack("Ferrium Powder", 1)]),
        recipe("Refining Unit", 2, vec![stack("Ferrium Ore", 1)], vec![stack("Ferrium", 1)]),
        recipe("Refining Unit", 1, vec![stack("Originium Ore", 1)], vec![stack("Originium Powder", 1)]),
        recipe("Refining Unit", 2, vec![stack("Amethyst Ore", 1)], vec![stack("Amethyst Fiber", 1)]),
    ];
    let t = convert_tables(&power(&[("Refining Unit", 5), ("Shredding Unit", 6)]), &recipes).unwrap();
    let order: Vec<(&str, u32, &str)> = t
        .recipes
        .recipes
        .iter()
        .map(|r| (r.facility.as_str(), r.time_s, r.ingredients[0].item.as_str()))
        .collect();
    assert_eq!(
        order,
        vec![
            ("Refining Unit", 1, "Originium Ore"),
            ("Refining Unit", 2, "Ferrium Ore"),
            ("Refining Unit", 2, "Amethyst Ore"),
            ("Shredding Unit", 2, "Ferrium"),
        ]
    );
    let machines: Vec<&str> = t.facilities.machines.iter().map(|m| m.key.as_str()).collect();
    assert_eq!(machines, vec!["Refining Unit", "Shredding Unit"]);
}

#[test]
fn missing_facility_power_is_reported() {
    let recipes = vec![recipe("Refining Unit", 1, vec![stack("Originium Ore", 1)], vec![stack("Originium Powder", 1)])];
    match convert_tables(&power(&[]), &recipes) {
        Err(ConvertError::MissingFacilityPower { facility }) => assert_eq!(facility, "Refining Unit"),
        other => panic!("unexpected {other:?}"),
    }
}

#[test]
fn facility_power_out_of_range_is_a_schema_error() {
    let recipes = vec![recipe("Refining Unit", 1, vec![stack("Originium Ore", 1)], vec![stack("Originium Powder", 1)])];
    match convert_tables(&power(&[("Refining Unit", 4294967296)]), &recipes) {
        Err(ConvertError::Schema { file, message }) => {
            assert_eq!(file, SchemaFile::FacilityPower);
            assert_eq!(message, "facility_power `Refining Unit` out of range for u32: 4294967296");
        }
        other => panic!("unexpected {other:?}"),
    }
}

#[test]
fn unknown_item_name_is_missing_i18n() {
    let recipes = vec![recipe("Refining Unit", 1, vec![stack("Mystery", 1)], vec![stack("Originium Powder", 1)])];
    match convert_tables(&power(&[("Refining Unit", 1)]), &recipes) {
        Err(ConvertError::MissingI18n { kind, key }) => {
            assert_eq!(kind, "item");
            assert_eq!(key, "Mystery");
        }
        other => panic!("unexpected {other:?}"),
    }
}

#[test]
fn unknown_facility_name_is_missing_i18n() {
    let recipes = vec![recipe("Mystery Unit", 1, vec![stack("Originium Ore", 1)], vec![stack("Originium Powder", 1)])];
    match convert_tables(&power(&[("Mystery Unit", 1)]), &recipes) {
        Err(ConvertError::MissingI18n { kind, key }) => {
            assert_eq!(kind, "facility");
            assert_eq!(key, "Mystery Unit");
        }
        other => panic!("unexpected {other:?}"),
    }
}

#[test]
fn bad_ingredient_count_is_a_schema_error() {
    let recipes = vec![recipe("Refining Unit", 1, vec![stack("Originium Ore", 0)], vec![stack("Originium Powder", 1)])];
    match convert_tables(&power(&[("Refining Unit", 1)]), &recipes) {
        Err(ConvertError::Schema { file, message }) => {
            assert_eq!(file, SchemaFile::Recipes);
            assert_eq!(message, "recipe ingredient count for item `Originium Ore` must be >= 1, got 0");
        }
        other => panic!("unexpected {other:?}"),
    }
}

#[test]
fn thermal_to_power_checks_shape() {
    let ok = recipe("Thermal Bank", 40, vec![stack("LC Valley Battery", 1)], vec![stack("Power", 220)]);
    let (fuel, w) = thermal_to_power(&ok).unwrap();
    assert_eq!(fuel.item, "LC Valley Battery");
    assert_eq!(fuel.count, 1);
    assert_eq!(w, 220);

    let two = recipe("Thermal Bank", 40, vec![stack("A", 1), stack("B", 1)], vec![stack("Power", 1)]);
    match thermal_to_power(&two) {
        Err(ConvertError::Schema { message, .. }) => {
            assert_eq!(message, "thermal bank recipe must have exactly one ingredient")
        }
        other => panic!("unexpected {other:?}"),
    }
    let no_product = recipe("Thermal Bank", 40, vec![stack("A", 1)], vec![]);
    match thermal_to_power(&no_product) {
        Err(ConvertError::Schema { message, .. }) => {
            assert_eq!(message, "thermal bank recipe must have exactly one product")
        }
        other => panic!("unexpected {other:?}"),
    }
    let wrong = recipe("Thermal Bank", 40, vec![stack("A", 1)], vec![stack("Heat", 1)]);
    match thermal_to_power(&wrong) {
        Err(ConvertError::Schema { message, .. }) => {
            assert_eq!(message, "thermal bank recipe product must be `Power`, got `Heat`")
        }
        other => panic!("unexpected {other:?}"),
    }
    let neg = recipe("Thermal Bank", 40, vec![stack("A", 1)], vec![stack("Power", -5)]);
    match thermal_to_power(&neg) {
        Err(ConvertError::Schema { message, .. }) => {
            assert_eq!(message, "thermal Power.count must be >= 1, got -5")
        }
        other => panic!("unexpected {other:?}"),
    }
}

#[test]
fn parse_positive_u32_accepts_exactly_the_positive_u32_range() {
    assert_eq!(parse_positive_u32(SchemaFile::Recipes, "x".to_string(), 1).unwrap(), 1);
    assert_eq!(parse_positive_u32(SchemaFile::Recipes, "x".to_string(), 4294967295).unwrap(), 4294967295);
    match parse_positive_u32(SchemaFile::Recipes, "x".to_string(), 0) {
        Err(ConvertError::Schema { message, .. }) => assert_eq!(message, "x must be >= 1, got 0"),
        other => panic!("unexpected {other:?}"),
    }
    match parse_positive_u32(SchemaFile::FacilityPower, "y".to_string(), i64::MIN) {
        Err(ConvertError::Schema { file, message }) => {
            assert_eq!(file, SchemaFile::FacilityPower);
            assert_eq!(message, "y must be >= 1, got -9223372036854775808");
        }
        other => panic!("unexpected {other:?}"),
    }
    match parse_positive_u32(SchemaFile::Recipes, "z".to_string(), 4294967296) {
        Err(ConvertError::Schema { message, .. }) => assert_eq!(message, "z out of range for u32: 4294967296"),
        other => panic!("unexpected {other:?}"),
    }
}

#[test]
fn chinese_names_for_facilities() {
    assert_eq!(facility_zh("Refining Unit"), Some("精炼炉"));
    assert_eq!(facility_zh("Thermal Bank"), Some("热容池"));
    assert_eq!(facility_zh("Unknown"), None);
}

#[test]
fn chinese_names_for_items() {
    assert_eq!(item_zh("Originium Ore").as_deref(), Some("源石矿"));
    assert_eq!(item_zh("Jincao Seed").as_deref(), Some("金草种子"));
    assert_eq!(item_zh("Aketine Seed").as_deref(), Some("阿刻汀种子"));
    assert_eq!(item_zh("Ferrium (Xiranite)").as_deref(), Some("铁（希然石）"));
    assert_eq!(item_zh("Ferrium (Foo)").as_deref(), Some("铁（Foo）"));
    assert_eq!(item_zh("Buck Capsule (A)").as_deref(), Some("精选荞愈胶囊"));
    assert_eq!(item_zh("Mystery (Ferrium)"), None);
    assert_eq!(item_zh("Mystery Seed"), None);
    assert_eq!(item_zh("Mystery"), None);
}

#[test]
fn split_parenthesized_uses_last_open_paren() {
    assert_eq!(split_parenthesized("A (B) (C)"), Some(("A (B)", "C")));
    assert_eq!(split_parenthesized("A (B)"), Some(("A", "B")));
    assert_eq!(split_parenthesized("A ()"), None);
    assert_eq!(split_parenthesized(" (B)"), None);
    assert_eq!(split_parenthesized("A (B"), None);
    assert_eq!(split_parenthesized("AB)"), None);
}

#[test]
fn conversion_reports_the_first_fault_in_order() {
    // a bad recipe wins over a missing name and a missing power
    let recipes = vec![
        recipe("Nowhere", 1, vec![stack("Mystery", 1)], vec![stack("Originium Powder", 1)]),
        recipe("Refining Unit", 1, vec![stack("Originium Ore", 1)], vec![stack("Originium Powder", 1), stack("Ferrium", 0)]),
    ];
    match convert_tables(&power(&[]), &recipes) {
        Err(ConvertError::Schema { file, message }) => {
            assert_eq!(file, SchemaFile::Recipes);
            assert_eq!(message, "recipe product count for item `Ferrium` must be >= 1, got 0");
        }
        other => panic!("unexpected {other:?}"),
    }
    // unnamed items are reported before machines, the first in key order
    let recipes = vec![recipe("Nowhere", 1, vec![stack("Zeta", 1), stack("Alpha", 1)], vec![stack("Originium Powder", 1)])];
    match convert_tables(&power(&[]), &recipes) {
        Err(ConvertError::MissingI18n { kind, key }) => assert_eq!((kind, key.as_str()), ("item", "Alpha")),
        other => panic!("unexpected {other:?}"),
    }
    // machines in key order: "Nowhere" has power but no name, "Alpha Unit" comes first
    let recipes = vec![
        recipe("Nowhere", 1, vec![stack("Originium Ore", 1)], vec![stack("Originium Powder", 1)]),
        recipe("Alpha Unit", 1, vec![stack("Originium Ore", 1)], vec![stack("Originium Powder", 1)]),
    ];
    match convert_tables(&power(&[("Nowhere", 3), ("Alpha Unit", -2)]), &recipes) {
        Err(ConvertError::Schema { file, message }) => {
            assert_eq!(file, SchemaFile::FacilityPower);
            assert_eq!(message, "facility_power `Alpha Unit` must be >= 1, got -2");
        }
        other => panic!("unexpected {other:?}"),
    }
    match convert_tables(&power(&[("Nowhere", 3), ("Alpha Unit", 2)]), &recipes) {
        Err(ConvertError::MissingI18n { kind, key }) => assert_eq!((kind, key.as_str()), ("facility", "Alpha Unit")),
        other => panic!("unexpected {other:?}"),
    }
}

#[test]
fn recipe_lists_and_recipe_sets_must_not_be_empty() {
    let ok = recipe("Refining Unit", 1, vec![stack("Originium Ore", 1)], vec![stack("Originium Powder", 1)]);
    assert!(check_recipe_lists(1, &ok).is_ok());
    let empty = recipe("Refining Unit", 1, vec![], vec![stack("Originium Powder", 1)]);
    match check_recipe_lists(12, &empty) {
        Err(ConvertError::Schema { file, message }) => {
            assert_eq!(file, SchemaFile::Recipes);
            assert_eq!(message, "recipe[12] has empty ingredient/product list");
        }
        other => panic!("unexpected {other:?}"),
    }
    assert!(check_recipes_loaded(&vec![ok]).is_ok());
    match check_recipes_loaded(&vec![]) {
        Err(ConvertError::Schema { message, .. }) => assert_eq!(message, "no recipes loaded"),
        other => panic!("unexpected {other:?}"),
    }
}
