use end_model::convert::model::{PowerRecipeToml, StackToml};
use end_model::order::{lex_less, stable_sort};
use end_model::text::{chars_of, concat_str, i64_to_decimal, str_eq, string_from_chars, u64_to_decimal};

#[test]
fn decimal_formatting() {
    assert_eq!(u64_to_decimal(0), "0");
    assert_eq!(u64_to_decimal(120), "120");
    assert_eq!(u64_to_decimal(u64::MAX), "18446744073709551615");
    assert_eq!(i64_to_decimal(-7), "-7");
    assert_eq!(i64_to_decimal(i64::MIN), "-9223372036854775808");
    assert_eq!(i64_to_decimal(42), "42");
}

#[test]
fn string_helpers() {
    assert!(str_eq("abc", "abc"));
    assert!(!str_eq("abc", "abd"));
    assert!(!str_eq("ab", "abc"));
    assert_eq!(concat_str("精炼", "炉"), "精炼炉");
    let cs = chars_of("héllo");
    assert_eq!(cs.len(), 5);
    assert_eq!(string_from_chars(&cs), "héllo");
}

#[test]
fn lexicographic_order_matches_string_order() {
    let words = ["", "a", "ab", "b", "Z", "é", "精炼炉", "aa"];
    for x in words {
        for y in words {
            assert_eq!(lex_less(x, y), x < y, "{x:?} vs {y:?}");
        }
    }
}

#[test]
fn stable_sort_is_stable() {
    let row = |item: &str, power_w: u32, time_s: u32| PowerRecipeToml {
        ingredient: StackToml { item: item.to_string(), count: 1 },
        power_w,
        time_s,
    };
    let rows = vec![row("b", 1, 1), row("a", 5, 2), row("a", 5, 2), row("a", 1, 2), row("a", 3, 1)];
    let sorted = stable_sort(rows);
    let keys: Vec<(&str, u32, u32)> =
        sorted.iter().map(|r| (r.ingredient.item.as_str(), r.time_s, r.power_w)).collect();
    assert_eq!(keys, vec![("a", 1, 3), ("a", 2, 1), ("a", 2, 5), ("a", 2, 5), ("b", 1, 1)]);
}
