//! Fruits, their rarity tiers and the catalog of all fruits.

use vstd::prelude::*;
use vstd::string::*;
use vstd::utf8::*;

verus! {

/// Rarity tier of a fruit, controlling its base drop-rate and value.
#[derive(Debug, Clone, Copy, PartialEq, Eq, Structural, Hash, PartialOrd, Ord)]
pub enum Category {
    /// Everyday fruits.
    Standard,
    /// Uncommon fruits.
    Rare,
    /// Very uncommon fruits.
    Exotic,
}

/// What a fruit is, as a mathematical value: two fruits are the same fruit
/// exactly when all four fields agree.
pub struct FruitModel {
    pub name: Seq<char>,
    pub emoji: Seq<char>,
    pub category: Category,
    pub rarity: u8,
}

/// A fruit that can be held in a player's bag, gifted, or burned.
///
/// Within-category rarity is kept as a raw `u8`; `rarity_raw() / 255` is the
/// normalised rarity in `[0, 1]`.
#[derive(Debug, Clone, Copy, PartialEq, Eq, Hash)]
pub struct Fruit {
    /// Display name.
    pub name: &'static str,
    /// Unicode emoji, e.g. `"🍓"`.
    pub emoji: &'static str,
    /// Rarity tier.
    pub category: Category,
    /// Raw within-category rarity in `0..=255`.
    pub _rarity: u8,
}

impl View for Fruit {
    type V = FruitModel;

    open spec fn view(&self) -> FruitModel {
        FruitModel { name: self.name@, emoji: self.emoji@, category: self.category, rarity: self._rarity }
    }
}

/// Value of a fruit of tier `c` in units of 1/255: `base × (255 + rarity)`
/// with bases Standard = 1, Rare = 3, Exotic = 10, so that the value itself is
/// `base × (1 + rarity/255)`.
pub open spec fn value_units_of(f: FruitModel) -> nat {
    let base: nat = match f.category {
        Category::Standard => 1,
        Category::Rare => 3,
        Category::Exotic => 10,
    };
    base * (255 + f.rarity as nat)
}

/// Two string slices hold the same characters.
pub fn str_eq(a: &str, b: &str) -> (r: bool)
    ensures
        r == (a@ == b@),
{
    let x = a.as_bytes();
    let y = b.as_bytes();
    proof {
        encode_utf8_decode_utf8(a@);
        encode_utf8_decode_utf8(b@);
    }
    if x.len() != y.len() {
        return false;
    }
    let mut i: usize = 0;
    while i < x.len()
        invariant
            x@ == a.spec_bytes(),
            y@ == b.spec_bytes(),
            x@.len() == y@.len(),
            i <= x@.len(),
            forall|k: int| 0 <= k < i ==> x@[k] == y@[k],
        decreases x@.len() - i,
    {
        if x[i] != y[i] {
            assert(x@[i as int] != y@[i as int]);
            assert(x@ != y@);
            assert(a@ != b@) by {
                if a@ == b@ {
                    assert(encode_utf8(a@) == encode_utf8(b@));
                }
            }
            return false;
        }
        i = i + 1;
    }
    assert(x@ =~= y@);
    true
}

impl Fruit {
    /// A fruit with the given fields; `rarity` is the raw within-category rarity.
    pub fn new(name: &'static str, emoji: &'static str, category: Category, rarity: u8) -> (f: Fruit)
        ensures
            f@ == (FruitModel { name: name@, emoji: emoji@, category, rarity }),
    {
        Fruit { name, emoji, category, _rarity: rarity }
    }

    /// Raw within-category rarity in `0..=255`; `0` is the most common
    /// position within the tier, `255` the rarest.
    pub fn rarity_raw(&self) -> (r: u8)
        ensures
            r == self@.rarity,
    {
        self._rarity
    }

    /// Intrinsic value of this fruit in units of 1/255 (see [`value_units_of`]).
    pub fn value_units(&self) -> (v: u32)
        ensures
            v == value_units_of(self@),
            v <= 5100,
    {
        let r = self._rarity as u32;
        match self.category {
            Category::Standard => 255 + r,
            Category::Rare => 3 * (255 + r),
            Category::Exotic => 10 * (255 + r),
        }
    }

    /// `true` exactly when both fruits agree on all fields.
    pub fn same(&self, other: &Fruit) -> (r: bool)
        ensures
            r == (self@ == other@),
    {
        self.category == other.category && self._rarity == other._rarity && str_eq(self.name, other.name)
            && str_eq(self.emoji, other.emoji)
    }
}

/// The fruit model with the given fields.
pub open spec fn fruit_model(name: Seq<char>, emoji: Seq<char>, category: Category, rarity: u8) -> FruitModel {
    FruitModel { name, emoji, category, rarity }
}

/// 🍇 Standard-tier fruit.
pub fn grapes() -> (f: Fruit)
    ensures
        f@ == fruit_model("Grapes"@, "🍇"@, Category::Standard, 0),
{
    Fruit { emoji: "🍇", name: "Grapes", category: Category::Standard, _rarity: 0 }
}

/// 🍈 Standard-tier fruit.
pub fn melon() -> (f: Fruit)
    ensures
        f@ == fruit_model("Melon"@, "🍈"@, Category::Standard, 32),
{
    Fruit { emoji: "🍈", name: "Melon", category: Category::Standard, _rarity: 32 }
}

/// 🍉 Standard-tier fruit.
pub fn watermelon() -> (f: Fruit)
    ensures
        f@ == fruit_model("Watermelon"@, "🍉"@, Category::Standard, 64),
{
    Fruit { emoji: "🍉", name: "Watermelon", category: Category::Standard, _rarity: 64 }
}

/// 🍊 Standard-tier fruit.
pub fn tangerine() -> (f: Fruit)
    ensures
        f@ == fruit_model("Tangerine"@, "🍊"@, Category::Standard, 96),
{
    Fruit { emoji: "🍊", name: "Tangerine", category: Category::Standard, _rarity: 96 }
}

/// 🍋 Standard-tier fruit.
pub fn lemon() -> (f: Fruit)
    ensures
        f@ == fruit_model("Lemon"@, "🍋"@, Category::Standard, 128),
{
    Fruit { emoji: "🍋", name: "Lemon", category: Category::Standard, _rarity: 128 }
}

/// 🍌 Standard-tier fruit.
pub fn banana() -> (f: Fruit)
    ensures
        f@ == fruit_model("Banana"@, "🍌"@, Category::Standard, 159),
{
    Fruit { emoji: "🍌", name: "Banana", category: Category::Standard, _rarity: 159 }
}

/// 🍍 Standard-tier fruit.
pub fn pineapple() -> (f: Fruit)
    ensures
        f@ == fruit_model("Pineapple"@, "🍍"@, Category::Standard, 191),
{
    Fruit { emoji: "🍍", name: "Pineapple", category: Category::Standard, _rarity: 191 }
}

/// 🍎 Standard-tier fruit.
pub fn red_apple() -> (f: Fruit)
    ensures
        f@ == fruit_model("Red Apple"@, "🍎"@, Category::Standard, 223),
{
    Fruit { emoji: "🍎", name: "Red Apple", category: Category::Standard, _rarity: 223 }
}

/// 🍏 Standard-tier fruit.
pub fn green_apple() -> (f: Fruit)
    ensures
        f@ == fruit_model("Green Apple"@, "🍏"@, Category::Standard, 255),
{
    Fruit { emoji: "🍏", name: "Green Apple", category: Category::Standard, _rarity: 255 }
}

/// 🍐 Rare-tier fruit.
pub fn pear() -> (f: Fruit)
    ensures
        f@ == fruit_model("Pear"@, "🍐"@, Category::Rare, 0),
{
    Fruit { emoji: "🍐", name: "Pear", category: Category::Rare, _rarity: 0 }
}

/// 🍑 Rare-tier fruit.
pub fn peach() -> (f: Fruit)
    ensures
        f@ == fruit_model("Peach"@, "🍑"@, Category::Rare, 32),
{
    Fruit { emoji: "🍑", name: "Peach", category: Category::Rare, _rarity: 32 }
}

/// 🍒 Rare-tier fruit.
pub fn cherries() -> (f: Fruit)
    ensures
        f@ == fruit_model("Cherries"@, "🍒"@, Category::Rare, 64),
{
    Fruit { emoji: "🍒", name: "Cherries", category: Category::Rare, _rarity: 64 }
}

/// 🍓 Rare-tier fruit.
pub fn strawberry() -> (f: Fruit)
    ensures
        f@ == fruit_model("Strawberry"@, "🍓"@, Category::Rare, 96),
{
    Fruit { emoji: "🍓", name: "Strawberry", category: Category::Rare, _rarity: 96 }
}

/// 🥑 Rare-tier fruit.
pub fn avocado() -> (f: Fruit)
    ensures
        f@ == fruit_model("Avocado"@, "🥑"@, Category::Rare, 128),
{
    Fruit { emoji: "🥑", name: "Avocado", category: Category::Rare, _rarity: 128 }
}

/// 🥒 Rare-tier fruit.
pub fn cucumber() -> (f: Fruit)
    ensures
        f@ == fruit_model("Cucumber"@, "🥒"@, Category::Rare, 159),
{
    Fruit { emoji: "🥒", name: "Cucumber", category: Category::Rare, _rarity: 159 }
}

/// 🥜 Rare-tier fruit.
pub fn peanut() -> (f: Fruit)
    ensures
        f@ == fruit_model("Peanut"@, "🥜"@, Category::Rare, 191),
{
    Fruit { emoji: "🥜", name: "Peanut", category: Category::Rare, _rarity: 191 }
}

/// 🥝 Rare-tier fruit.
pub fn kiwi() -> (f: Fruit)
    ensures
        f@ == fruit_model("Kiwi"@, "🥝"@, Category::Rare, 223),
{
    Fruit { emoji: "🥝", name: "Kiwi", category: Category::Rare, _rarity: 223 }
}

/// 🥥 Rare-tier fruit.
pub fn coconut() -> (f: Fruit)
    ensures
        f@ == fruit_model("Coconut"@, "🥥"@, Category::Rare, 255),
{
    Fruit { emoji: "🥥", name: "Coconut", category: Category::Rare, _rarity: 255 }
}

/// 🥭 Exotic-tier fruit.
pub fn mango() -> (f: Fruit)
    ensures
        f@ == fruit_model("Mango"@, "🥭"@, Category::Exotic, 0),
{
    Fruit { emoji: "🥭", name: "Mango", category: Category::Exotic, _rarity: 0 }
}

/// 🍅 Exotic-tier fruit.
pub fn tomato() -> (f: Fruit)
    ensures
        f@ == fruit_model("Tomato"@, "🍅"@, Category::Exotic, 36),
{
    Fruit { emoji: "🍅", name: "Tomato", category: Category::Exotic, _rarity: 36 }
}

/// 🌰 Exotic-tier fruit.
pub fn chestnut() -> (f: Fruit)
    ensures
        f@ == fruit_model("Chestnut"@, "🌰"@, Category::Exotic, 73),
{
    Fruit { emoji: "🌰", name: "Chestnut", category: Category::Exotic, _rarity: 73 }
}

/// 🌶 Exotic-tier fruit.
pub fn hot_pepper() -> (f: Fruit)
    ensures
        f@ == fruit_model("Hot Pepper"@, "🌶"@, Category::Exotic, 109),
{
    Fruit { emoji: "🌶", name: "Hot Pepper", category: Category::Exotic, _rarity: 109 }
}

/// 🫑 Exotic-tier fruit.
pub fn bell_pepper() -> (f: Fruit)
    ensures
        f@ == fruit_model("Bell Pepper"@, "🫑"@, Category::Exotic, 146),
{
    Fruit { emoji: "🫑", name: "Bell Pepper", category: Category::Exotic, _rarity: 146 }
}

/// 🫚 Exotic-tier fruit.
pub fn ginger_root() -> (f: Fruit)
    ensures
        f@ == fruit_model("Ginger Root"@, "🫚"@, Category::Exotic, 182),
{
    Fruit { emoji: "🫚", name: "Ginger Root", category: Category::Exotic, _rarity: 182 }
}

/// 🫐 Exotic-tier fruit.
pub fn blueberries() -> (f: Fruit)
    ensures
        f@ == fruit_model("Blueberries"@, "🫐"@, Category::Exotic, 219),
{
    Fruit { emoji: "🫐", name: "Blueberries", category: Category::Exotic, _rarity: 219 }
}

/// 🫒 Exotic-tier fruit.
pub fn olive() -> (f: Fruit)
    ensures
        f@ == fruit_model("Olive"@, "🫒"@, Category::Exotic, 255),
{
    Fruit { emoji: "🫒", name: "Olive", category: Category::Exotic, _rarity: 255 }
}

/// The catalog of all defined fruits, ordered by category (Standard → Rare →
/// Exotic) then by ascending within-category rarity.
pub open spec fn catalog() -> Seq<FruitModel> {
    seq![
        fruit_model("Grapes"@, "🍇"@, Category::Standard, 0),
        fruit_model("Melon"@, "🍈"@, Category::Standard, 32),
        fruit_model("Watermelon"@, "🍉"@, Category::Standard, 64),
        fruit_model("Tangerine"@, "🍊"@, Category::Standard, 96),
        fruit_model("Lemon"@, "🍋"@, Category::Standard, 128),
        fruit_model("Banana"@, "🍌"@, Category::Standard, 159),
        fruit_model("Pineapple"@, "🍍"@, Category::Standard, 191),
        fruit_model("Red Apple"@, "🍎"@, Category::Standard, 223),
        fruit_model("Green Apple"@, "🍏"@, Category::Standard, 255),
        fruit_model("Pear"@, "🍐"@, Category::Rare, 0),
        fruit_model("Peach"@, "🍑"@, Category::Rare, 32),
        fruit_model("Cherries"@, "🍒"@, Category::Rare, 64),
        fruit_model("Strawberry"@, "🍓"@, Category::Rare, 96),
        fruit_model("Avocado"@, "🥑"@, Category::Rare, 128),
        fruit_model("Cucumber"@, "🥒"@, Category::Rare, 159),
        fruit_model("Peanut"@, "🥜"@, Category::Rare, 191),
        fruit_model("Kiwi"@, "🥝"@, Category::Rare, 223),
        fruit_model("Coconut"@, "🥥"@, Category::Rare, 255),
        fruit_model("Mango"@, "🥭"@, Category::Exotic, 0),
        fruit_model("Tomato"@, "🍅"@, Category::Exotic, 36),
        fruit_model("Chestnut"@, "🌰"@, Category::Exotic, 73),
        fruit_model("Hot Pepper"@, "🌶"@, Category::Exotic, 109),
        fruit_model("Bell Pepper"@, "🫑"@, Category::Exotic, 146),
        fruit_model("Ginger Root"@, "🫚"@, Category::Exotic, 182),
        fruit_model("Blueberries"@, "🫐"@, Category::Exotic, 219),
        fruit_model("Olive"@, "🫒"@, Category::Exotic, 255)
    ]
}

/// No two catalog fruits share a name.
pub proof fn lemma_catalog_names_distinct()
    ensures
        forall|i: int, j: int|
            0 <= i < catalog().len() && 0 <= j < catalog().len() && i != j ==> catalog()[i].name
                != catalog()[j].name,
{
        reveal_strlit("Grapes");
        reveal_strlit("Melon");
        reveal_strlit("Watermelon");
        reveal_strlit("Tangerine");
        reveal_strlit("Lemon");
        reveal_strlit("Banana");
        reveal_strlit("Pineapple");
        reveal_strlit("Red Apple");
        reveal_strlit("Green Apple");
        reveal_strlit("Pear");
        reveal_strlit("Peach");
        reveal_strlit("Cherries");
        reveal_strlit("Strawberry");
        reveal_strlit("Avocado");
        reveal_strlit("Cucumber");
        reveal_strlit("Peanut");
        reveal_strlit("Kiwi");
        reveal_strlit("Coconut");
        reveal_strlit("Mango");
        reveal_strlit("Tomato");
        reveal_strlit("Chestnut");
        reveal_strlit("Hot Pepper");
        reveal_strlit("Bell Pepper");
        reveal_strlit("Ginger Root");
        reveal_strlit("Blueberries");
        reveal_strlit("Olive");
    assert forall|i: int, j: int|
        0 <= i < catalog().len() && 0 <= j < catalog().len() && i != j implies catalog()[i].name
            != catalog()[j].name by {
        let a = catalog()[i].name;
        let b = catalog()[j].name;
        assert(a.len() != b.len() || a[0] != b[0] || a[1] != b[1] || a[2] != b[2] || a[3] != b[3]);
    }
}

/// No two catalog fruits share an emoji.
pub proof fn lemma_catalog_emojis_distinct()
    ensures
        forall|i: int, j: int|
            0 <= i < catalog().len() && 0 <= j < catalog().len() && i != j ==> catalog()[i].emoji
                != catalog()[j].emoji,
{
        reveal_strlit("🍇");
        reveal_strlit("🍈");
        reveal_strlit("🍉");
        reveal_strlit("🍊");
        reveal_strlit("🍋");
        reveal_strlit("🍌");
        reveal_strlit("🍍");
        reveal_strlit("🍎");
        reveal_strlit("🍏");
        reveal_strlit("🍐");
        reveal_strlit("🍑");
        reveal_strlit("🍒");
        reveal_strlit("🍓");
        reveal_strlit("🥑");
        reveal_strlit("🥒");
        reveal_strlit("🥜");
        reveal_strlit("🥝");
        reveal_strlit("🥥");
        reveal_strlit("🥭");
        reveal_strlit("🍅");
        reveal_strlit("🌰");
        reveal_strlit("🌶");
        reveal_strlit("🫑");
        reveal_strlit("🫚");
        reveal_strlit("🫐");
        reveal_strlit("🫒");
    assert forall|i: int, j: int|
        0 <= i < catalog().len() && 0 <= j < catalog().len() && i != j implies catalog()[i].emoji
            != catalog()[j].emoji by {
        let a = catalog()[i].emoji;
        let b = catalog()[j].emoji;
        assert(a.len() != b.len() || a[0] != b[0] || (a.len() > 1 && a[1] != b[1]));
    }
}

/// All defined fruits, in catalog order.
pub fn fruits() -> (v: Vec<Fruit>)
    ensures
        v@.map_values(|f: Fruit| f@) == catalog(),
{
    let mut v: Vec<Fruit> = Vec::new();
    v.push(grapes());
    v.push(melon());
    v.push(watermelon());
    v.push(tangerine());
    v.push(lemon());
    v.push(banana());
    v.push(pineapple());
    v.push(red_apple());
    v.push(green_apple());
    v.push(pear());
    v.push(peach());
    v.push(cherries());
    v.push(strawberry());
    v.push(avocado());
    v.push(cucumber());
    v.push(peanut());
    v.push(kiwi());
    v.push(coconut());
    v.push(mango());
    v.push(tomato());
    v.push(chestnut());
    v.push(hot_pepper());
    v.push(bell_pepper());
    v.push(ginger_root());
    v.push(blueberries());
    v.push(olive());
    assert(v@.map_values(|f: Fruit| f@) =~= catalog());
    v
}

/// Index of the first catalog fruit whose name is `name`, if any.
pub open spec fn catalog_index_by_name(name: Seq<char>) -> Option<int> {
    if exists|i: int| 0 <= i < catalog().len() && catalog()[i].name == name {
        Some(choose|i: int| 0 <= i < catalog().len() && catalog()[i].name == name
            && forall|j: int| 0 <= j < i ==> catalog()[j].name != name)
    } else {
        None
    }
}

/// Looks up the first catalog fruit named `name`.
pub fn fruit_by_name(name: &str) -> (r: Option<Fruit>)
    ensures
        match r {
            Some(f) => exists|i: int|
                0 <= i < catalog().len() && catalog()[i] == f@ && f@.name == name@
                && forall|j: int| 0 <= j < i ==> catalog()[j].name != name@,
            None => forall|i: int| 0 <= i < catalog().len() ==> catalog()[i].name != name@,
        },
{
    let all = fruits();
    let mut i: usize = 0;
    while i < all.len()
        invariant
            all@.map_values(|f: Fruit| f@) == catalog(),
            i <= all@.len(),
            forall|j: int| 0 <= j < i ==> catalog()[j].name != name@,
        decreases all@.len() - i,
    {
        assert(all@.map_values(|f: Fruit| f@)[i as int] == all@[i as int]@);
        if str_eq(all[i].name, name) {
            return Some(all[i]);
        }
        i = i + 1;
    }
    None
}

/// Looks up the first catalog fruit whose emoji is `emoji`.
pub fn fruit_by_emoji(emoji: &str) -> (r: Option<Fruit>)
    ensures
        match r {
            Some(f) => exists|i: int|
                0 <= i < catalog().len() && catalog()[i] == f@ && f@.emoji == emoji@
                && forall|j: int| 0 <= j < i ==> catalog()[j].emoji != emoji@,
            None => forall|i: int| 0 <= i < catalog().len() ==> catalog()[i].emoji != emoji@,
        },
{
    let all = fruits();
    let mut i: usize = 0;
    while i < all.len()
        invariant
            all@.map_values(|f: Fruit| f@) == catalog(),
            i <= all@.len(),
            forall|j: int| 0 <= j < i ==> catalog()[j].emoji != emoji@,
        decreases all@.len() - i,
    {
        assert(all@.map_values(|f: Fruit| f@)[i as int] == all@[i as int]@);
        if str_eq(all[i].emoji, emoji) {
            return Some(all[i]);
        }
        i = i + 1;
    }
    None
}

} // verus!
