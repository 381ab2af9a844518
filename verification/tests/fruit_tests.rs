use std::collections::hash_map::DefaultHasher;
use std::collections::HashMap;
use std::hash::{Hash, Hasher};

use fruit_domain::fruit::{
    fruit_by_emoji, fruit_by_name, fruits, grapes, olive, pear, strawberry, Category, Fruit,
};

fn rarity(f: &Fruit) -> f64 {
    f.rarity_raw() as f64 / u8::MAX as f64
}

fn assert_ordered_by_category_then_rarity(fruits: &[Fruit]) {
    let expected = [Category::Standard, Category::Rare, Category::Exotic];
    let mut cat_idx = 0;
    let mut prev_rarity = 0.0f64;
    for f in fruits {
        if f.category != expected[cat_idx] {
            cat_idx += 1;
            prev_rarity = 0.0;
            assert_eq!(
                f.category, expected[cat_idx],
                "unexpected category order at fruit {}",
                f.name
            );
        }
        assert!(
            rarity(f) >= prev_rarity,
            "rarity not monotonically increasing within {:?} (at {})",
            f.category,
            f.name
        );
        prev_rarity = rarity(f);
    }
}

fn assert_category_counts_balanced(fruits: &[Fruit]) {
    let counts = [Category::Standard, Category::Rare, Category::Exotic]
        .map(|c| fruits.iter().filter(|f| f.category == c).count());
    let min = *counts.iter().min().unwrap();
    let max = *counts.iter().max().unwrap();
    assert!(
        max - min <= 1,
        "category counts are unbalanced: Standard={}, Rare={}, Exotic={}",
        counts[0],
        counts[1],
        counts[2]
    );
}

#[test]
fn rarity_bounds() {
    assert!(fruits().iter().all(|f| rarity(f) <= 1.0));
}

#[test]
fn fruits_ordered_by_category_then_rarity() {
    assert_ordered_by_category_then_rarity(&fruits());
}

#[test]
fn category_counts_are_balanced() {
    assert_category_counts_balanced(&fruits());
}

#[test]
#[should_panic(expected = "unexpected category order at fruit Grapes")]
fn out_of_order_category_is_detected() {
    assert_ordered_by_category_then_rarity(&[pear(), grapes()]);
}

#[test]
#[should_panic(expected = "rarity not monotonically increasing within Standard")]
fn decreasing_rarity_within_category_is_detected() {
    let high = Fruit { _rarity: 200, ..grapes() };
    let low = Fruit { _rarity: 1, ..grapes() };
    assert_ordered_by_category_then_rarity(&[high, low]);
}

#[test]
#[should_panic(expected = "category counts are unbalanced: Standard=3, Rare=0, Exotic=0")]
fn imbalanced_category_counts_are_detected() {
    assert_category_counts_balanced(&[grapes(), grapes(), grapes()]);
}

#[test]
fn all_emojis_are_single_codepoint() {
    assert!(fruits().iter().all(|f| f.emoji.chars().count() == 1));
}

#[test]
fn equality_uses_all_fields() {
    let a = Fruit { name: "Test", emoji: "🍇", category: Category::Standard, _rarity: 0 };
    let b = Fruit { _rarity: 50, ..a };
    assert_ne!(a, b);

    let c = Fruit { category: Category::Rare, ..a };
    assert_ne!(a, c);

    assert_eq!(a, a);
}

#[test]
fn hash_consistent_with_eq() {
    let hash = |f: &Fruit| {
        let mut h = DefaultHasher::new();
        f.hash(&mut h);
        h.finish()
    };

    let a = grapes();
    let b = grapes();
    assert_eq!(a, b);
    assert_eq!(hash(&a), hash(&b));

    let tweaked = Fruit { _rarity: 99, ..grapes() };
    assert_ne!(a, tweaked);
}

#[test]
fn fruits_with_same_emoji_but_different_rarity_are_distinct_map_keys() {
    let a = Fruit { name: "Apple", emoji: "🍎", category: Category::Standard, _rarity: 0 };
    let b = Fruit { _rarity: 100, ..a };

    let mut map = HashMap::new();
    map.insert(a, 1u32);
    map.insert(b, 2u32);

    assert_eq!(map.len(), 2);
    assert_eq!(map[&a], 1);
    assert_eq!(map[&b], 2);
}

#[test]
fn catalog_has_twenty_six_fruits_with_distinct_names_and_emojis() {
    let all = fruits();
    assert_eq!(all.len(), 26);
    for (i, a) in all.iter().enumerate() {
        for b in &all[i + 1..] {
            assert_ne!(a.name, b.name);
            assert_ne!(a.emoji, b.emoji);
        }
    }
}

#[test]
fn lookup_by_name_and_emoji() {
    assert_eq!(fruit_by_name("Strawberry"), Some(strawberry()));
    assert_eq!(fruit_by_emoji("🫒"), Some(olive()));
    assert_eq!(fruit_by_name("Durian"), None);
    assert_eq!(fruit_by_emoji("x"), None);
}

#[test]
fn fruit_value_units_follow_tier_and_rarity() {
    // Grapes: 1 × (255 + 0); Pear: 3 × (255 + 0); Olive: 10 × (255 + 255).
    assert_eq!(grapes().value_units(), 255);
    assert_eq!(pear().value_units(), 765);
    assert_eq!(olive().value_units(), 5100);
}

#[test]
fn same_compares_all_fields() {
    let a = grapes();
    assert!(a.same(&grapes()));
    assert!(!a.same(&Fruit { _rarity: 1, ..grapes() }));
    assert!(!a.same(&pear()));
    let renamed = Fruit::new("Grape", "🍇", Category::Standard, 0);
    assert!(!a.same(&renamed));
}
