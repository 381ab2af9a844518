//! Participants in the game.

use vstd::prelude::*;
use vstd::multiset::Multiset;
use vstd::string::*;

use crate::bag::Bag;
use crate::fruit::{Fruit, FruitModel};
use crate::ids::MemberId;

verus! {

/// What a member is, as a mathematical value.
pub struct MemberModel {
    pub id: MemberId,
    pub display_name: Seq<char>,
    pub luck: u8,
    pub bag: Multiset<FruitModel>,
}

/// A participant in the game.
#[derive(Debug, PartialEq, Eq)]
pub struct Member {
    /// Unique identifier for this member.
    pub id: MemberId,
    /// The name shown to other members.
    pub display_name: String,
    /// Raw luck score in `0..=255`; `0` is neutral.
    pub luck: u8,
    /// The fruits currently held by this member.
    pub bag: Bag,
}

impl View for Member {
    type V = MemberModel;

    open spec fn view(&self) -> MemberModel {
        MemberModel { id: self.id, display_name: self.display_name@, luck: self.luck, bag: self.bag@ }
    }
}

impl Clone for Member {
    fn clone(&self) -> (m: Member)
        ensures
            m@ == self@,
    {
        Member { id: self.id, display_name: self.display_name.clone(), luck: self.luck, bag: self.bag.clone() }
    }
}

impl Member {
    /// Creates a new member with a random ID, an empty bag, and neutral luck (`0`).
    pub fn new(display_name: &str) -> (m: Member)
        ensures
            crate::ids::is_v4_uuid(m@.id.0),
            m@.display_name == display_name@,
            m@.luck == 0,
            m@.bag == Multiset::<FruitModel>::empty(),
    {
        Member { id: MemberId::new(), display_name: String::from_str(display_name), luck: 0, bag: Bag::new() }
    }

    /// Overrides the ID. Useful when reconstituting a member from stored data.
    pub fn with_id(self, id: MemberId) -> (m: Member)
        ensures
            m@ == (MemberModel { id, ..self@ }),
    {
        Member { id, ..self }
    }

    /// Overrides the bag contents.
    pub fn with_bag(self, bag: Bag) -> (m: Member)
        ensures
            m@ == (MemberModel { bag: bag@, ..self@ }),
    {
        Member { bag, ..self }
    }

    /// Overrides the raw luck score.
    pub fn with_luck(self, luck: u8) -> (m: Member)
        ensures
            m@ == (MemberModel { luck, ..self@ }),
    {
        Member { luck, ..self }
    }

    /// The raw luck score in `0..=255`.
    pub fn luck_raw(&self) -> (l: u8)
        ensures
            l == self@.luck,
    {
        self.luck
    }

    /// Adds one instance of `fruit` to this member's bag.
    pub fn receive(&mut self, fruit: Fruit) -> (r: &mut Member)
        ensures
            (*r)@ == (MemberModel { bag: old(self)@.bag.insert(fruit@), ..old(self)@ }),
            *final(self) == *final(r),
    {
        self.bag.add(fruit);
        self
    }
}

} // verus!
