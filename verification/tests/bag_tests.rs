use fruit_domain::bag::Bag;
use fruit_domain::fruit::{grapes, olive, pear, Fruit};

#[test]
fn insert_and_count() {
    let bag = Bag::new().insert(grapes()).insert(grapes());
    assert_eq!(bag.count(grapes()), 2);
    assert_eq!(bag.total(), 2);
}

#[test]
fn remove_decrements_and_cleans_up() {
    let mut bag = Bag::new().insert(grapes());
    assert!(bag.remove(grapes()));
    assert_eq!(bag, Bag::new());
    assert!(!bag.remove(grapes()));
}

#[test]
fn remove_decrements_without_removing_when_count_gt_1() {
    let mut bag = Bag::new().insert(grapes()).insert(grapes());
    assert!(bag.remove(grapes()));
    assert_eq!(bag, Bag::new().insert(grapes()));
}

#[test]
fn total_across_distinct_fruits() {
    let bag = Bag::new().insert(grapes()).insert(olive()).insert(olive());
    assert_eq!(bag.total(), 3);
    assert_eq!(bag.count(olive()), 2);
}

#[test]
fn is_empty_reflects_contents() {
    assert!(Bag::new().is_empty());
    assert!(!Bag::new().insert(grapes()).is_empty());
}

/// The value of a bag as a number: its exact value units divided by 255.
fn bag_value(bag: &Bag) -> f64 {
    bag.value_units() as f64 / 255.0
}

#[test]
fn bag_value_empty_bag_is_zero() {
    assert_eq!(bag_value(&Bag::new()), 0.0);
}

#[test]
fn bag_value_sums_fruit_values_with_counts() {
    // Grapes: Standard, rarity 0, value 1 × 2 = 2; Pear: Rare, rarity 0, value 3 × 1 = 3.
    let bag = Bag::new().insert(grapes()).insert(grapes()).insert(pear());
    assert_eq!(bag_value(&bag), 5.0);
}

#[test]
fn iter_yields_each_fruit_with_count() {
    let bag = Bag::new().insert(grapes()).insert(grapes()).insert(olive());
    let mut items: Vec<(Fruit, usize)> = bag.iter();
    items.sort_by_key(|(f, _)| f.name);
    assert_eq!(items, vec![(grapes(), 2), (olive(), 1)]);
}

#[test]
fn value_units_are_exact() {
    // Olive: Exotic, rarity 255: 10 × (255 + 255) units.
    let bag = Bag::new().insert(olive()).insert(grapes());
    assert_eq!(bag.value_units(), 10 * 510 + 255);
}

#[test]
fn insert_then_remove_restores_bag() {
    let bag = Bag::new().insert(pear()).insert(grapes());
    let mut grown = bag.clone().insert(olive());
    assert!(grown.remove(olive()));
    assert_eq!(grown, bag);
}

#[test]
fn remove_from_empty_bag_is_refused() {
    let mut bag = Bag::new();
    assert!(!bag.remove(pear()));
    assert_eq!(bag, Bag::new());
}

#[test]
fn bags_with_same_fruits_in_other_order_are_equal() {
    let a = Bag::new().insert(grapes()).insert(pear()).insert(grapes());
    let b = Bag::new().insert(pear()).insert(grapes()).insert(grapes());
    assert_eq!(a, b);
    assert_ne!(a, Bag::new().insert(pear()));
}

#[test]
fn add_in_place_counts_like_insert() {
    let mut bag = Bag::new();
    bag.add(olive());
    bag.add(olive());
    assert_eq!(bag, Bag::new().insert(olive()).insert(olive()));
    assert_eq!(bag.count(olive()), 2);
}
