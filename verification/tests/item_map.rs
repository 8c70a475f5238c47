use end_model::{CatalogBuilder, ItemDef, ItemId, ItemU32Map};

fn item_ids(n: usize) -> Vec<ItemId> {
    let mut b = CatalogBuilder::new();
    let mut ids = Vec::new();
    for i in 0..n {
        let key = format!("item{i}");
        ids.push(
            b.add_item(ItemDef { key: key.clone(), en: key.clone(), zh: key, is_fluid: false })
                .expect("fresh key"),
        );
    }
    ids
}

#[test]
fn item_u32_map_keeps_unique_keys() {
    let item = item_ids(8)[7];
    let mut map = ItemU32Map::new();

    assert_eq!(map.insert(item, 10), None);
    assert_eq!(map.insert(item, 20), Some(10));
    assert_eq!(map.len(), 1);
    assert_eq!(map.get(item), Some(&20));
}

#[test]
fn item_u32_map_from_vec_uses_last_value_for_duplicates() {
    let ids = item_ids(3);
    let a = ids[1];
    let b = ids[2];
    let map: ItemU32Map = vec![(a, 1), (b, 3), (a, 2)].into();

    assert_eq!(map.len(), 2);
    assert_eq!(map.get(a), Some(&2));
    assert_eq!(map.get(b), Some(&3));
}

#[test]
fn item_u32_map_starts_empty_and_reports_absent_items() {
    let ids = item_ids(2);
    let map = ItemU32Map::with_capacity(4);
    assert!(map.is_empty());
    assert_eq!(map.len(), 0);
    assert_eq!(map.get(ids[0]), None);
    let d = ItemU32Map::default();
    assert!(d.is_empty());
}

#[test]
fn item_u32_map_iter_keeps_first_insertion_order() {
    let ids = item_ids(3);
    let mut map = ItemU32Map::new();
    map.insert(ids[2], 5);
    map.insert(ids[0], 7);
    map.insert(ids[2], 9);
    let pairs = map.iter();
    assert_eq!(pairs, vec![(ids[2], 9), (ids[0], 7)]);
    assert!(!map.is_empty());
}

#[test]
fn item_u32_map_equality_ignores_order() {
    let ids = item_ids(2);
    let x = ItemU32Map::from_vec(vec![(ids[0], 1), (ids[1], 2)]);
    let y = ItemU32Map::from_vec(vec![(ids[1], 2), (ids[0], 1)]);
    let z = ItemU32Map::from_vec(vec![(ids[1], 3), (ids[0], 1)]);
    assert!(x == y);
    assert!(x != z);
    let c = x.clone();
    assert!(c == x);
    assert_eq!(c.iter(), x.iter());
}

#[test]
fn item_id_numbers_follow_insertion_order() {
    let ids = item_ids(4);
    for (i, id) in ids.iter().enumerate() {
        assert_eq!(id.as_u32() as usize, i);
    }
}

#[test]
fn item_u32_map_from_vec_keeps_first_places() {
    let ids = item_ids(3);
    let map = ItemU32Map::from_vec(vec![(ids[2], 1), (ids[0], 2), (ids[2], 3)]);
    assert_eq!(map.iter(), vec![(ids[2], 3), (ids[0], 2)]);
    let same: ItemU32Map = vec![(ids[2], 1), (ids[0], 2), (ids[2], 3)].into();
    assert_eq!(same.iter(), map.iter());
}

#[test]
fn item_u32_map_from_array_uses_last_value_for_duplicates() {
    let ids = item_ids(3);
    let map: ItemU32Map = [(ids[1], 1), (ids[2], 3), (ids[1], 2)].into();
    assert_eq!(map.iter(), vec![(ids[1], 2), (ids[2], 3)]);
}
