//! Storage encodings of fruits, identifiers and members, and the decoding
//! that reads them back.
//!
//! Fruits are stored by name, identifiers as their 16 UUID bytes, and a bag
//! as one (name, count) entry per distinct fruit.

use vstd::prelude::*;
use vstd::multiset::Multiset;
use vstd::string::*;

use crate::bag::Bag;
use crate::fruit::{catalog, fruit_by_name, lemma_catalog_names_distinct, Fruit, FruitModel};
use crate::ids::{be_value, CommunityId, MemberId};
use crate::member::{Member, MemberModel};
use crate::storage_error::Error;
use crate::text::{decimal, push_decimal};

verus! {

broadcast use vstd::multiset::group_multiset_axioms;

/// Whether `f` is one of the catalog fruits.
pub open spec fn in_catalog(f: FruitModel) -> bool {
    exists|i: int| 0 <= i < catalog().len() && catalog()[i] == f
}

/// The catalog fruit named `name`, or the message of the error that refuses it.
pub open spec fn fruit_decode(name: Seq<char>) -> Result<FruitModel, Seq<char>> {
    if exists|i: int| 0 <= i < catalog().len() && catalog()[i].name == name {
        Ok(catalog()[choose|i: int| 0 <= i < catalog().len() && catalog()[i].name == name])
    } else {
        Err("unknown fruit '"@ + name + "'"@)
    }
}

/// A catalog fruit is read back from its name.
pub proof fn lemma_fruit_decode_name(f: FruitModel)
    requires
        in_catalog(f),
    ensures
        fruit_decode(f.name) == Ok::<FruitModel, Seq<char>>(f),
{
    lemma_catalog_names_distinct();
    let i = choose|i: int| 0 <= i < catalog().len() && catalog()[i] == f;
    assert(catalog()[i].name == f.name);
    let k = choose|k: int| 0 <= k < catalog().len() && catalog()[k].name == f.name;
    assert(k == i);
}

/// The stored name of `fruit`.
pub fn fruit_name(fruit: Fruit) -> (s: String)
    ensures
        s@ == fruit@.name,
{
    String::from_str(fruit.name)
}

/// The catalog fruit named `name`; a name outside the catalog is a codec
/// error `unknown fruit '<name>'`.
pub fn fruit_from_name(name: &str) -> (r: Result<Fruit, Error>)
    ensures
        match r {
            Ok(f) => fruit_decode(name@) == Ok::<FruitModel, Seq<char>>(f@),
            Err(e) => e matches Error::Codec { message } && fruit_decode(name@) == Err::<
                FruitModel,
                Seq<char>,
            >(message@),
        },
{
    proof {
        lemma_catalog_names_distinct();
    }
    match fruit_by_name(name) {
        Some(f) => {
            proof {
                let i = choose|i: int|
                    0 <= i < catalog().len() && catalog()[i] == f@ && f@.name == name@ && forall|
                        j: int,
                    | 0 <= j < i ==> catalog()[j].name != name@;
                let k = choose|k: int| 0 <= k < catalog().len() && catalog()[k].name == name@;
                assert(k == i);
            }
            Ok(f)
        },
        None => {
            let mut message = String::from_str("unknown fruit '");
            message.append(name);
            message.append("'");
            Err(Error::Codec { message })
        },
    }
}

/// Whether `b` holds the 16 big-endian UUID bytes of the value `v`.
pub open spec fn encodes_id(b: Seq<u8>, v: u128) -> bool {
    b.len() == 16 && be_value(b) == v as nat
}

/// The UUID value stored in `b`, or the message of the error that refuses it:
/// `<context>: expected 16 bytes, got <n>`.
pub open spec fn id_decode(b: Seq<u8>, context: Seq<char>) -> Result<u128, Seq<char>> {
    if b.len() == 16 {
        Ok(be_value(b) as u128)
    } else {
        Err(context + ": expected 16 bytes, got "@ + decimal(b.len()))
    }
}

/// Decoding the bytes of a value gives the value back.
pub proof fn lemma_id_decode_encoded(b: Seq<u8>, v: u128, context: Seq<char>)
    requires
        encodes_id(b, v),
    ensures
        id_decode(b, context) == Ok::<u128, Seq<char>>(v),
{
}

fn uuid_from_bytes(bytes: &[u8], context: &str) -> (r: Result<u128, Error>)
    ensures
        match r {
            Ok(v) => id_decode(bytes@, context@) == Ok::<u128, Seq<char>>(v),
            Err(e) => e matches Error::Codec { message } && id_decode(bytes@, context@) == Err::<
                u128,
                Seq<char>,
            >(message@),
        },
{
    if bytes.len() == 16 {
        let id = MemberId::from_uuid_bytes(bytes);
        Ok(id.0)
    } else {
        let mut message = String::from_str(context);
        message.append(": expected 16 bytes, got ");
        push_decimal(&mut message, bytes.len() as u64);
        Err(Error::Codec { message })
    }
}

/// The member identifier stored in `b`, or the error message.
pub open spec fn member_id_decode(b: Seq<u8>) -> Result<MemberId, Seq<char>> {
    match id_decode(b, "invalid member_id"@) {
        Ok(v) => Ok(MemberId(v)),
        Err(e) => Err(e),
    }
}

/// The community identifier stored in `b`, or the error message.
pub open spec fn community_id_decode(b: Seq<u8>) -> Result<CommunityId, Seq<char>> {
    match id_decode(b, "invalid community_id"@) {
        Ok(v) => Ok(CommunityId(v)),
        Err(e) => Err(e),
    }
}

/// The member identifier stored in `bytes`.
pub fn member_id_from_bytes(bytes: &[u8]) -> (r: Result<MemberId, Error>)
    ensures
        match r {
            Ok(id) => member_id_decode(bytes@) == Ok::<MemberId, Seq<char>>(id),
            Err(e) => e matches Error::Codec { message } && member_id_decode(bytes@) == Err::<
                MemberId,
                Seq<char>,
            >(message@),
        },
{
    match uuid_from_bytes(bytes, "invalid member_id") {
        Ok(v) => Ok(MemberId(v)),
        Err(e) => Err(e),
    }
}

/// The community identifier stored in `bytes`.
pub fn community_id_from_bytes(bytes: &[u8]) -> (r: Result<CommunityId, Error>)
    ensures
        match r {
            Ok(id) => community_id_decode(bytes@) == Ok::<CommunityId, Seq<char>>(id),
            Err(e) => e matches Error::Codec { message } && community_id_decode(bytes@) == Err::<
                CommunityId,
                Seq<char>,
            >(message@),
        },
{
    match uuid_from_bytes(bytes, "invalid community_id") {
        Ok(v) => Ok(CommunityId(v)),
        Err(e) => Err(e),
    }
}

/// `n` copies of `f`.
pub open spec fn copies(f: FruitModel, n: nat) -> Multiset<FruitModel>
    decreases n,
{
    if n == 0 {
        Multiset::empty()
    } else {
        copies(f, (n - 1) as nat).insert(f)
    }
}

proof fn lemma_copies_count(f: FruitModel, n: nat, v: FruitModel)
    ensures
        copies(f, n).count(v) == if v == f { n } else { 0 },
    decreases n,
{
    if n > 0 {
        lemma_copies_count(f, (n - 1) as nat, v);
    }
}

/// The bag stored as `entries` of (fruit name, count), or the message of the
/// first entry whose name is not a catalog fruit.
pub open spec fn bag_decode(entries: Seq<(Seq<char>, usize)>) -> Result<
    Multiset<FruitModel>,
    Seq<char>,
>
    decreases entries.len(),
{
    if entries.len() == 0 {
        Ok(Multiset::empty())
    } else {
        match bag_decode(entries.drop_last()) {
            Err(e) => Err(e),
            Ok(m) => match fruit_decode(entries.last().0) {
                Err(e) => Err(e),
                Ok(f) => Ok(m.add(copies(f, entries.last().1 as nat))),
            },
        }
    }
}

/// The entries of a stored bag as (name, count) values.
pub open spec fn entry_views(entries: Seq<(String, usize)>) -> Seq<(Seq<char>, usize)> {
    entries.map_values(|e: (String, usize)| (e.0@, e.1))
}

/// Whether the bag entries `entries` store the multiset `bag`: one entry
/// (name, count) per distinct fruit of the bag, its name and its count.
pub open spec fn bag_encodes(entries: Seq<(Seq<char>, usize)>, bag: Multiset<FruitModel>) -> bool {
    exists|fs: Seq<FruitModel>| bag_entries_for(entries, fs, bag)
}

/// `entries` store `bag`, the entry at `i` standing for the fruit `fs[i]`.
pub open spec fn bag_entries_for(
    entries: Seq<(Seq<char>, usize)>,
    fs: Seq<FruitModel>,
    bag: Multiset<FruitModel>,
) -> bool {
    &&& fs.len() == entries.len()
    &&& forall|i: int| 0 <= i < fs.len() ==> (#[trigger] entries[i]).0 == fs[i].name
    &&& forall|i: int| 0 <= i < fs.len() ==> (#[trigger] entries[i]).1 == bag.count(fs[i])
    &&& forall|i: int| 0 <= i < fs.len() ==> bag.count(#[trigger] fs[i]) > 0
    &&& forall|i: int, j: int| 0 <= i < j < fs.len() ==> fs[i] != fs[j]
    &&& forall|v: FruitModel| bag.count(v) > 0 ==> fs.contains(v)
}

proof fn lemma_bag_decode_prefix(
    entries: Seq<(Seq<char>, usize)>,
    fs: Seq<FruitModel>,
    bag: Multiset<FruitModel>,
    k: int,
)
    requires
        bag_entries_for(entries, fs, bag),
        forall|v: FruitModel| bag.count(v) > 0 ==> in_catalog(v),
        0 <= k <= entries.len(),
    ensures
        bag_decode(entries.take(k)) is Ok,
        forall|v: FruitModel|
            #[trigger] bag_decode(entries.take(k))->Ok_0.count(v) == if fs.take(k).contains(v) {
                bag.count(v)
            } else {
                0
            },
    decreases k,
{
    if k > 0 {
        lemma_bag_decode_prefix(entries, fs, bag, k - 1);
        let t = entries.take(k);
        assert(t.drop_last() =~= entries.take(k - 1));
        assert(t.last() == entries[k - 1]);
        let f = fs[k - 1];
        assert(bag.count(f) > 0);
        lemma_fruit_decode_name(f);
        let t0 = fs.take(k - 1);
        let t1 = fs.take(k);
        assert forall|v: FruitModel| #[trigger]
            bag_decode(entries.take(k))->Ok_0.count(v) == if t1.contains(v) {
                bag.count(v)
            } else {
                0
            } by {
            lemma_copies_count(f, entries[k - 1].1 as nat, v);
            if v == f {
                assert(t1[k - 1] == f);
                if t0.contains(v) {
                    let j = choose|j: int| 0 <= j < t0.len() && t0[j] == v;
                    assert(fs[j] == fs[k - 1]);
                }
            } else {
                if t1.contains(v) {
                    let j = choose|j: int| 0 <= j < t1.len() && t1[j] == v;
                    assert(t0[j] == v);
                }
                if t0.contains(v) {
                    let j = choose|j: int| 0 <= j < t0.len() && t0[j] == v;
                    assert(t1[j] == v);
                }
            }
        }
    } else {
        assert(entries.take(0) =~= Seq::<(Seq<char>, usize)>::empty());
        assert(fs.take(0) =~= Seq::<FruitModel>::empty());
    }
}

/// Once a prefix of the entries fails to decode, every longer prefix fails
/// with the same message.
proof fn lemma_bag_decode_err_extends(entries: Seq<(Seq<char>, usize)>, k: int, m: int)
    requires
        0 <= k <= m <= entries.len(),
        bag_decode(entries.take(k)) is Err,
    ensures
        bag_decode(entries.take(m)) == bag_decode(entries.take(k)),
    decreases m - k,
{
    if m > k {
        lemma_bag_decode_err_extends(entries, k, m - 1);
        assert(entries.take(m).drop_last() =~= entries.take(m - 1));
    }
}

/// A bag of catalog fruits is read back from its entries.
pub proof fn lemma_bag_round_trip(entries: Seq<(Seq<char>, usize)>, bag: Multiset<FruitModel>)
    requires
        bag_encodes(entries, bag),
        forall|v: FruitModel| bag.count(v) > 0 ==> in_catalog(v),
    ensures
        bag_decode(entries) == Ok::<Multiset<FruitModel>, Seq<char>>(bag),
{
    let fs = choose|fs: Seq<FruitModel>| bag_entries_for(entries, fs, bag);
    lemma_bag_decode_prefix(entries, fs, bag, entries.len() as int);
    assert(entries.take(entries.len() as int) =~= entries);
    assert(fs.take(fs.len() as int) =~= fs);
    let m = bag_decode(entries)->Ok_0;
    assert forall|v: FruitModel| m.count(v) == bag.count(v) by {
        if !fs.contains(v) {
            assert(bag.count(v) == 0);
        }
    }
    assert(m =~= bag);
}

/// Serialised form of a member: the bag maps fruit names to counts.
#[derive(Debug, PartialEq, Eq)]
pub struct MemberDto {
    /// The 16 UUID bytes of the member's identifier.
    pub id: Vec<u8>,
    /// The member's display name.
    pub display_name: String,
    /// The member's raw luck.
    pub luck: u8,
    /// One (fruit name, count) entry per distinct fruit held.
    pub bag: Vec<(String, usize)>,
}

/// Whether `d` stores the member `m`.
pub open spec fn member_encodes(d: MemberDto, m: MemberModel) -> bool {
    &&& encodes_id(d.id@, m.id.0)
    &&& d.display_name@ == m.display_name
    &&& d.luck == m.luck
    &&& bag_encodes(entry_views(d.bag@), m.bag)
}

/// The member stored in `d`, or the message of the first field that cannot
/// be read (the identifier, then the bag entries in order).
pub open spec fn member_decode(d: MemberDto) -> Result<MemberModel, Seq<char>> {
    match member_id_decode(d.id@) {
        Err(e) => Err(e),
        Ok(id) => match bag_decode(entry_views(d.bag@)) {
            Err(e) => Err(e),
            Ok(bag) => Ok(MemberModel { id, display_name: d.display_name@, luck: d.luck, bag }),
        },
    }
}

/// Whether every fruit that `m` holds is a catalog fruit.
pub open spec fn member_in_catalog(m: MemberModel) -> bool {
    forall|v: FruitModel| m.bag.count(v) > 0 ==> in_catalog(v)
}

/// A member holding catalog fruits is read back from its stored form.
pub proof fn lemma_member_round_trip(d: MemberDto, m: MemberModel)
    requires
        member_encodes(d, m),
        member_in_catalog(m),
    ensures
        member_decode(d) == Ok::<MemberModel, Seq<char>>(m),
{
    lemma_id_decode_encoded(d.id@, m.id.0, "invalid member_id"@);
    lemma_bag_round_trip(entry_views(d.bag@), m.bag);
}

fn copy_string(s: &String) -> (r: String)
    ensures
        r@ == s@,
{
    String::from_str(s.as_str())
}

fn bag_entries(bag: &Bag) -> (entries: Vec<(String, usize)>)
    ensures
        bag_encodes(entry_views(entries@), bag@),
{
    let items = bag.iter();
    let mut entries: Vec<(String, usize)> = Vec::new();
    let mut i: usize = 0;
    while i < items.len()
        invariant
            i <= items@.len(),
            entries@.len() == i,
            forall|k: int|
                0 <= k < i ==> (#[trigger] entries@[k]).0@ == items@[k].0@.name && entries@[k].1
                    == items@[k].1,
        decreases items@.len() - i,
    {
        let name = fruit_name(items[i].0);
        entries.push((name, items[i].1));
        i = i + 1;
    }
    proof {
        let fs = items@.map_values(|e: (Fruit, usize)| e.0@);
        let ev = entry_views(entries@);
        assert forall|v: FruitModel| bag@.count(v) > 0 implies fs.contains(v) by {
            let k = choose|k: int| 0 <= k < items@.len() && #[trigger] items@[k].0@ == v;
            assert(fs[k] == v);
        }
        assert forall|a: int, b: int| 0 <= a < b < fs.len() implies fs[a] != fs[b] by {
            assert(items@[a].0@ != items@[b].0@);
        }
        assert forall|k: int| 0 <= k < fs.len() implies (#[trigger] ev[k]).1 == bag@.count(
            fs[k],
        ) && ev[k].0 == fs[k].name && bag@.count(fs[k]) > 0 by {
            assert(fs[k] == items@[k].0@);
            assert(ev[k] == (entries@[k].0@, entries@[k].1));
            assert(entries@[k].1 == items@[k].1);
            assert(items@[k].1 > 0);
        }
        assert(fs.len() == ev.len());
        assert(forall|k: int| 0 <= k < fs.len() ==> (#[trigger] ev[k]).0 == fs[k].name);
        assert(forall|k: int| 0 <= k < fs.len() ==> (#[trigger] ev[k]).1 == bag@.count(fs[k]));
        assert forall|k: int| 0 <= k < fs.len() implies bag@.count(#[trigger] fs[k]) > 0 by {
            assert(fs[k] == items@[k].0@);
            assert(items@[k].1 > 0);
            assert(items@[k].1 == bag@.count(items@[k].0@));
        }
        assert(bag_entries_for(ev, fs, bag@));
    }
    entries
}

fn bag_from_entries(entries: &Vec<(String, usize)>) -> (r: Result<Bag, Error>)
    ensures
        match r {
            Ok(b) => bag_decode(entry_views(entries@)) == Ok::<Multiset<FruitModel>, Seq<char>>(
                b@,
            ),
            Err(e) => e matches Error::Codec { message } && bag_decode(entry_views(entries@))
                == Err::<Multiset<FruitModel>, Seq<char>>(message@),
        },
{
    let mut bag = Bag::new();
    let mut i: usize = 0;
    while i < entries.len()
        invariant
            i <= entries@.len(),
            bag_decode(entry_views(entries@).take(i as int)) == Ok::<
                Multiset<FruitModel>,
                Seq<char>,
            >(bag@),
        decreases entries@.len() - i,
    {
        let ghost ev = entry_views(entries@);
        proof {
            assert(ev.take(i + 1).drop_last() =~= ev.take(i as int));
            assert(ev.take(i + 1).last() == ev[i as int]);
        }
        let fruit = match fruit_from_name(entries[i].0.as_str()) {
            Ok(f) => f,
            Err(e) => {
                proof {
                    lemma_bag_decode_err_extends(ev, i + 1, ev.len() as int);
                    assert(ev.take(ev.len() as int) =~= ev);
                }
                return Err(e);
            },
        };
        let count = entries[i].1;
        let ghost start = bag@;
        let mut n: usize = 0;
        while n < count
            invariant
                n <= count,
                bag@ == start.add(copies(fruit@, n as nat)),
            decreases count - n,
        {
            bag.add(fruit);
            n = n + 1;
            assert(bag@ =~= start.add(copies(fruit@, n as nat)));
        }
        i = i + 1;
    }
    proof {
        assert(entry_views(entries@).take(i as int) =~= entry_views(entries@));
    }
    Ok(bag)
}

impl MemberDto {
    /// The stored form of `m`.
    pub fn encode(m: &Member) -> (d: MemberDto)
        ensures
            member_encodes(d, m@),
    {
        MemberDto {
            id: m.id.uuid_bytes(),
            display_name: copy_string(&m.display_name),
            luck: m.luck_raw(),
            bag: bag_entries(&m.bag),
        }
    }

    /// The member stored in this form.
    pub fn decode(&self) -> (r: Result<Member, Error>)
        ensures
            match r {
                Ok(m) => member_decode(*self) == Ok::<MemberModel, Seq<char>>(m@),
                Err(e) => e matches Error::Codec { message } && member_decode(*self) == Err::<
                    MemberModel,
                    Seq<char>,
                >(message@),
            },
    {
        let id = match member_id_from_bytes(self.id.as_slice()) {
            Ok(id) => id,
            Err(e) => return Err(e),
        };
        let bag = match bag_from_entries(&self.bag) {
            Ok(b) => b,
            Err(e) => return Err(e),
        };
        Ok(Member { id, display_name: copy_string(&self.display_name), luck: self.luck, bag })
    }
}

} // verus!
