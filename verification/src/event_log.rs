//! The shared event/effect log: player intentions (events), their computed
//! consequences (effects) and how effects change a community.

use vstd::prelude::*;
use vstd::string::*;

use crate::community::{Community, CommunityModel};
use crate::fruit::{Fruit, FruitModel};
use crate::ids::{CommunityId, HasCommunityId, HasSequenceId, MemberId, SequenceId};
use crate::member::{Member, MemberModel};

verus! {

/// The action a player intended, as a mathematical value.
pub enum PayloadModel {
    Grant { count: usize },
    AddMember { display_name: Seq<char>, member_id: MemberId },
    RemoveMember { member_id: MemberId },
    SetCommunityLuck { luck: u8 },
    SetMemberLuck { member_id: MemberId, luck: u8 },
    Gift {
        sender_id: MemberId,
        recipient_id: MemberId,
        fruit: FruitModel,
        message: Option<Seq<char>>,
    },
    Burn { member_id: MemberId, fruits: Seq<FruitModel> },
}

/// The action a player intended to perform.
#[derive(Debug, PartialEq, Eq)]
pub enum EventPayload {
    /// Distribute `count` fruits to every member of the community.
    Grant { count: usize },
    /// Add a new member with the given display name and identifier.
    AddMember { display_name: String, member_id: MemberId },
    /// Remove the member identified by `member_id` from the community.
    RemoveMember { member_id: MemberId },
    /// Set the community's raw luck to `luck`.
    SetCommunityLuck { luck: u8 },
    /// Set the raw luck of the member identified by `member_id` to `luck`.
    SetMemberLuck { member_id: MemberId, luck: u8 },
    /// Transfer one instance of `fruit` from `sender_id` to `recipient_id`.
    Gift {
        /// The member giving the fruit.
        sender_id: MemberId,
        /// The member receiving the fruit.
        recipient_id: MemberId,
        /// The fruit being transferred.
        fruit: Fruit,
        /// An optional message from the sender to the recipient.
        message: Option<String>,
    },
    /// Destroy fruits held by `member_id`, granting a community luck bonus.
    ///
    /// `fruits` may contain duplicates and may span multiple fruit types.
    Burn {
        /// The member burning the fruits.
        member_id: MemberId,
        /// The fruits requested to be burned (duplicates allowed).
        fruits: Vec<Fruit>,
    },
}

/// The models of a sequence of fruits.
pub open spec fn fruit_models(s: Seq<Fruit>) -> Seq<FruitModel> {
    s.map_values(|f: Fruit| f@)
}

impl View for EventPayload {
    type V = PayloadModel;

    open spec fn view(&self) -> PayloadModel {
        match self {
            EventPayload::Grant { count } => PayloadModel::Grant { count: *count },
            EventPayload::AddMember { display_name, member_id } => PayloadModel::AddMember {
                display_name: display_name@,
                member_id: *member_id,
            },
            EventPayload::RemoveMember { member_id } => PayloadModel::RemoveMember {
                member_id: *member_id,
            },
            EventPayload::SetCommunityLuck { luck } => PayloadModel::SetCommunityLuck { luck: *luck },
            EventPayload::SetMemberLuck { member_id, luck } => PayloadModel::SetMemberLuck {
                member_id: *member_id,
                luck: *luck,
            },
            EventPayload::Gift { sender_id, recipient_id, fruit, message } => PayloadModel::Gift {
                sender_id: *sender_id,
                recipient_id: *recipient_id,
                fruit: fruit@,
                message: match message {
                    Some(m) => Some(m@),
                    None => None,
                },
            },
            EventPayload::Burn { member_id, fruits } => PayloadModel::Burn {
                member_id: *member_id,
                fruits: fruit_models(fruits@),
            },
        }
    }
}

fn clone_fruits(v: &Vec<Fruit>) -> (r: Vec<Fruit>)
    ensures
        r@ == v@,
{
    let mut r: Vec<Fruit> = Vec::new();
    let mut i: usize = 0;
    while i < v.len()
        invariant
            i <= v@.len(),
            r@ == v@.subrange(0, i as int),
        decreases v@.len() - i,
    {
        r.push(v[i]);
        assert(v@.subrange(0, i + 1) =~= v@.subrange(0, i as int).push(v@[i as int]));
        i = i + 1;
    }
    assert(v@.subrange(0, i as int) =~= v@);
    r
}

impl Clone for EventPayload {
    fn clone(&self) -> (p: EventPayload)
        ensures
            p@ == self@,
    {
        match self {
            EventPayload::Grant { count } => EventPayload::Grant { count: *count },
            EventPayload::AddMember { display_name, member_id } => EventPayload::AddMember {
                display_name: display_name.clone(),
                member_id: *member_id,
            },
            EventPayload::RemoveMember { member_id } => EventPayload::RemoveMember {
                member_id: *member_id,
            },
            EventPayload::SetCommunityLuck { luck } => EventPayload::SetCommunityLuck { luck: *luck },
            EventPayload::SetMemberLuck { member_id, luck } => EventPayload::SetMemberLuck {
                member_id: *member_id,
                luck: *luck,
            },
            EventPayload::Gift { sender_id, recipient_id, fruit, message } => EventPayload::Gift {
                sender_id: *sender_id,
                recipient_id: *recipient_id,
                fruit: *fruit,
                message: match message {
                    Some(m) => Some(m.clone()),
                    None => None,
                },
            },
            EventPayload::Burn { member_id, fruits } => EventPayload::Burn {
                member_id: *member_id,
                fruits: clone_fruits(fruits),
            },
        }
    }
}

/// A recorded player intention. Events do not modify community state
/// directly; their consequences are computed as [`Effect`]s.
#[derive(Debug, PartialEq, Eq)]
pub struct Event {
    /// Position in the shared event/effect sequence.
    pub id: SequenceId,
    /// The community this event applies to.
    pub community_id: CommunityId,
    /// The action the player intended.
    pub payload: EventPayload,
}

impl Clone for Event {
    fn clone(&self) -> (e: Event)
        ensures
            e.id == self.id,
            e.community_id == self.community_id,
            e.payload@ == self.payload@,
    {
        Event { id: self.id, community_id: self.community_id, payload: self.payload.clone() }
    }
}

/// An atomic change to community state, as a mathematical value.
pub enum MutationModel {
    AddFruitToMember { member_id: MemberId, fruit: FruitModel },
    RemoveFruitFromMember { member_id: MemberId, fruit: FruitModel },
    AddMember { member: MemberModel },
    RemoveMember { member_id: MemberId },
    SetCommunityLuck { luck: u8 },
    SetMemberLuck { member_id: MemberId, luck: u8 },
    GiftLuckBonus { member_id: MemberId, delta: i16 },
    BurnLuckBonus { delta: i16 },
    OstentatiousGiftPenalty { member_id: MemberId, delta: i16 },
    OstentatiousBurnPenalty { member_id: MemberId, delta: i16 },
    QuidProQuoPenalty { delta: i16 },
}

/// An atomic change to community state produced as part of an [`Effect`].
#[derive(Debug, PartialEq, Eq)]
pub enum StateMutation {
    /// Add one instance of `fruit` to the bag of the member `member_id`.
    AddFruitToMember { member_id: MemberId, fruit: Fruit },
    /// Remove one instance of `fruit` from the bag of the member `member_id`;
    /// no effect if the member does not hold the fruit.
    RemoveFruitFromMember { member_id: MemberId, fruit: Fruit },
    /// Add `member` to the community.
    AddMember { member: Member },
    /// Remove the member `member_id` from the community.
    RemoveMember { member_id: MemberId },
    /// Set the community's raw luck to `luck`.
    SetCommunityLuck { luck: u8 },
    /// Set the raw luck of the member `member_id` to `luck`.
    SetMemberLuck { member_id: MemberId, luck: u8 },
    /// Adjust the luck of `member_id` by `delta`, clamped to `[0, 255]`
    /// (emitted when a member gifts fruit; `delta` is positive).
    GiftLuckBonus { member_id: MemberId, delta: i16 },
    /// Adjust community luck by `delta`, clamped to `[0, 255]`
    /// (emitted when a member burns fruit; `delta` is positive).
    BurnLuckBonus { delta: i16 },
    /// Adjust the luck of `member_id` by `delta`, clamped to `[0, 255]`
    /// (emitted when a gift is deemed ostentatious; `delta` is negative).
    OstentatiousGiftPenalty { member_id: MemberId, delta: i16 },
    /// Adjust the luck of `member_id` by `delta`, clamped to `[0, 255]`
    /// (emitted when a burn is deemed ostentatious; `delta` is negative).
    OstentatiousBurnPenalty { member_id: MemberId, delta: i16 },
    /// Adjust community luck by `delta`, clamped to `[0, 255]`
    /// (emitted when quid-pro-quo gifting is detected; `delta` is negative).
    QuidProQuoPenalty { delta: i16 },
}

impl View for StateMutation {
    type V = MutationModel;

    open spec fn view(&self) -> MutationModel {
        match self {
            StateMutation::AddFruitToMember { member_id, fruit } => MutationModel::AddFruitToMember {
                member_id: *member_id,
                fruit: fruit@,
            },
            StateMutation::RemoveFruitFromMember { member_id, fruit } =>
                MutationModel::RemoveFruitFromMember { member_id: *member_id, fruit: fruit@ },
            StateMutation::AddMember { member } => MutationModel::AddMember { member: member@ },
            StateMutation::RemoveMember { member_id } => MutationModel::RemoveMember {
                member_id: *member_id,
            },
            StateMutation::SetCommunityLuck { luck } => MutationModel::SetCommunityLuck { luck: *luck },
            StateMutation::SetMemberLuck { member_id, luck } => MutationModel::SetMemberLuck {
                member_id: *member_id,
                luck: *luck,
            },
            StateMutation::GiftLuckBonus { member_id, delta } => MutationModel::GiftLuckBonus {
                member_id: *member_id,
                delta: *delta,
            },
            StateMutation::BurnLuckBonus { delta } => MutationModel::BurnLuckBonus { delta: *delta },
            StateMutation::OstentatiousGiftPenalty { member_id, delta } =>
                MutationModel::OstentatiousGiftPenalty { member_id: *member_id, delta: *delta },
            StateMutation::OstentatiousBurnPenalty { member_id, delta } =>
                MutationModel::OstentatiousBurnPenalty { member_id: *member_id, delta: *delta },
            StateMutation::QuidProQuoPenalty { delta } => MutationModel::QuidProQuoPenalty {
                delta: *delta,
            },
        }
    }
}

impl Clone for StateMutation {
    fn clone(&self) -> (m: StateMutation)
        ensures
            m@ == self@,
    {
        match self {
            StateMutation::AddFruitToMember { member_id, fruit } => StateMutation::AddFruitToMember {
                member_id: *member_id,
                fruit: *fruit,
            },
            StateMutation::RemoveFruitFromMember { member_id, fruit } =>
                StateMutation::RemoveFruitFromMember { member_id: *member_id, fruit: *fruit },
            StateMutation::AddMember { member } => StateMutation::AddMember { member: member.clone() },
            StateMutation::RemoveMember { member_id } => StateMutation::RemoveMember {
                member_id: *member_id,
            },
            StateMutation::SetCommunityLuck { luck } => StateMutation::SetCommunityLuck { luck: *luck },
            StateMutation::SetMemberLuck { member_id, luck } => StateMutation::SetMemberLuck {
                member_id: *member_id,
                luck: *luck,
            },
            StateMutation::GiftLuckBonus { member_id, delta } => StateMutation::GiftLuckBonus {
                member_id: *member_id,
                delta: *delta,
            },
            StateMutation::BurnLuckBonus { delta } => StateMutation::BurnLuckBonus { delta: *delta },
            StateMutation::OstentatiousGiftPenalty { member_id, delta } =>
                StateMutation::OstentatiousGiftPenalty { member_id: *member_id, delta: *delta },
            StateMutation::OstentatiousBurnPenalty { member_id, delta } =>
                StateMutation::OstentatiousBurnPenalty { member_id: *member_id, delta: *delta },
            StateMutation::QuidProQuoPenalty { delta } => StateMutation::QuidProQuoPenalty {
                delta: *delta,
            },
        }
    }
}

/// The models of a sequence of mutations.
pub open spec fn mutation_models(s: Seq<StateMutation>) -> Seq<MutationModel> {
    s.map_values(|m: StateMutation| m@)
}

/// A copy of `v`, mutation by mutation.
pub fn clone_mutations(v: &Vec<StateMutation>) -> (r: Vec<StateMutation>)
    ensures
        mutation_models(r@) == mutation_models(v@),
{
    let mut r: Vec<StateMutation> = Vec::new();
    let mut i: usize = 0;
    while i < v.len()
        invariant
            i <= v@.len(),
            mutation_models(r@) == mutation_models(v@.subrange(0, i as int)),
        decreases v@.len() - i,
    {
        let m = v[i].clone();
        let ghost before = r@;
        r.push(m);
        assert(mutation_models(r@) =~= mutation_models(before).push(m@));
        assert(mutation_models(v@.subrange(0, i + 1)) =~= mutation_models(v@.subrange(0, i as int)).push(
            v@[i as int]@,
        ));
        i = i + 1;
    }
    assert(v@.subrange(0, i as int) =~= v@);
    r
}

/// `raw + delta`, clamped to `[0, 255]`.
pub open spec fn luck_after_delta(raw: u8, delta: i16) -> u8 {
    let v = raw as int + delta as int;
    if v < 0 {
        0
    } else if v > 255 {
        255
    } else {
        v as u8
    }
}

/// `raw + delta`, clamped to `[0, 255]`.
pub fn apply_luck_delta(raw: u8, delta: i16) -> (r: u8)
    ensures
        r == luck_after_delta(raw, delta),
{
    let v: i32 = raw as i32 + delta as i32;
    if v < 0 {
        0
    } else if v > 255 {
        255
    } else {
        v as u8
    }
}

/// `c` with member `id` (if present) changed by `f`.
pub open spec fn update_member(
    c: CommunityModel,
    id: MemberId,
    f: spec_fn(MemberModel) -> MemberModel,
) -> CommunityModel {
    if c.members.dom().contains(id) {
        CommunityModel { members: c.members.insert(id, f(c.members[id])), ..c }
    } else {
        c
    }
}

/// The community after one mutation.
pub open spec fn apply_mutation(c: CommunityModel, m: MutationModel) -> CommunityModel {
    match m {
        MutationModel::AddFruitToMember { member_id, fruit } => update_member(
            c,
            member_id,
            |mm: MemberModel| MemberModel { bag: mm.bag.insert(fruit), ..mm },
        ),
        MutationModel::RemoveFruitFromMember { member_id, fruit } => update_member(
            c,
            member_id,
            |mm: MemberModel| MemberModel { bag: mm.bag.remove(fruit), ..mm },
        ),
        MutationModel::AddMember { member } => if c.members.dom().contains(member.id) {
            c
        } else {
            CommunityModel { members: c.members.insert(member.id, member), ..c }
        },
        MutationModel::RemoveMember { member_id } => CommunityModel {
            members: c.members.remove(member_id),
            ..c
        },
        MutationModel::SetCommunityLuck { luck } => CommunityModel { luck, ..c },
        MutationModel::SetMemberLuck { member_id, luck } => update_member(
            c,
            member_id,
            |mm: MemberModel| MemberModel { luck, ..mm },
        ),
        MutationModel::GiftLuckBonus { member_id, delta } => update_member(
            c,
            member_id,
            |mm: MemberModel| MemberModel { luck: luck_after_delta(mm.luck, delta), ..mm },
        ),
        MutationModel::OstentatiousGiftPenalty { member_id, delta } => update_member(
            c,
            member_id,
            |mm: MemberModel| MemberModel { luck: luck_after_delta(mm.luck, delta), ..mm },
        ),
        MutationModel::OstentatiousBurnPenalty { member_id, delta } => update_member(
            c,
            member_id,
            |mm: MemberModel| MemberModel { luck: luck_after_delta(mm.luck, delta), ..mm },
        ),
        MutationModel::BurnLuckBonus { delta } => CommunityModel {
            luck: luck_after_delta(c.luck, delta),
            ..c
        },
        MutationModel::QuidProQuoPenalty { delta } => CommunityModel {
            luck: luck_after_delta(c.luck, delta),
            ..c
        },
    }
}

/// The community after the mutations `ms`, applied in order.
pub open spec fn apply_mutations(c: CommunityModel, ms: Seq<MutationModel>) -> CommunityModel
    decreases ms.len(),
{
    if ms.len() == 0 {
        c
    } else {
        apply_mutation(apply_mutations(c, ms.drop_last()), ms.last())
    }
}

/// Applying `a + b` is applying `a`, then `b`.
pub proof fn lemma_apply_mutations_concat(c: CommunityModel, a: Seq<MutationModel>, b: Seq<MutationModel>)
    ensures
        apply_mutations(c, a + b) == apply_mutations(apply_mutations(c, a), b),
    decreases b.len(),
{
    if b.len() == 0 {
        assert(a + b =~= a);
    } else {
        assert((a + b).drop_last() =~= a + b.drop_last());
        lemma_apply_mutations_concat(c, a, b.drop_last());
    }
}

/// The computed consequence of an [`Event`]. An effect may contain zero
/// mutations (a no-op, e.g. when the event violated an invariant) or many.
///
/// An `Effect` carries the same [`SequenceId`] as its originating `Event`.
#[derive(Debug, PartialEq, Eq)]
pub struct Effect {
    /// Position in the shared event/effect sequence; equals the originating event's ID.
    pub id: SequenceId,
    /// The community this effect applies to.
    pub community_id: CommunityId,
    /// The state changes produced by this effect. Empty if the event was a no-op.
    pub mutations: Vec<StateMutation>,
}

impl Clone for Effect {
    fn clone(&self) -> (e: Effect)
        ensures
            e.id == self.id,
            e.community_id == self.community_id,
            mutation_models(e.mutations@) == mutation_models(self.mutations@),
    {
        Effect { id: self.id, community_id: self.community_id, mutations: clone_mutations(&self.mutations) }
    }
}

impl Effect {
    /// Apply all mutations in this effect to `community` in order.
    ///
    /// Mutations for members no longer present in the community are skipped.
    pub fn apply(&self, community: &mut Community)
        requires
            old(community).wf(),
        ensures
            final(community).wf(),
            final(community)@ == apply_mutations(old(community)@, mutation_models(self.mutations@)),
    {
        let mut i: usize = 0;
        while i < self.mutations.len()
            invariant
                i <= self.mutations@.len(),
                community.wf(),
                community@ == apply_mutations(
                    old(community)@,
                    mutation_models(self.mutations@.subrange(0, i as int)),
                ),
            decreases self.mutations@.len() - i,
        {
            let ghost before = community@;
            proof {
                let s = mutation_models(self.mutations@.subrange(0, i + 1));
                assert(s.drop_last() =~= mutation_models(self.mutations@.subrange(0, i as int)));
                assert(s.last() == self.mutations@[i as int]@);
            }
            match &self.mutations[i] {
                StateMutation::AddFruitToMember { member_id, fruit } => {
                    community.give_fruit(*member_id, *fruit);
                },
                StateMutation::RemoveFruitFromMember { member_id, fruit } => {
                    community.take_fruit(*member_id, *fruit);
                },
                StateMutation::AddMember { member } => {
                    community.add_member(member.clone());
                },
                StateMutation::RemoveMember { member_id } => {
                    community.remove_member(*member_id);
                },
                StateMutation::SetCommunityLuck { luck } => {
                    community.set_luck(*luck);
                },
                StateMutation::SetMemberLuck { member_id, luck } => {
                    community.set_member_luck(*member_id, *luck);
                },
                StateMutation::GiftLuckBonus { member_id, delta }
                | StateMutation::OstentatiousGiftPenalty { member_id, delta }
                | StateMutation::OstentatiousBurnPenalty { member_id, delta } => {
                    match community.member(*member_id) {
                        Some(m) => {
                            let new_luck = apply_luck_delta(m.luck_raw(), *delta);
                            community.set_member_luck(*member_id, new_luck);
                        },
                        None => {},
                    }
                },
                StateMutation::BurnLuckBonus { delta } | StateMutation::QuidProQuoPenalty { delta } => {
                    let new_luck = apply_luck_delta(community.luck_raw(), *delta);
                    community.set_luck(new_luck);
                },
            }
            i = i + 1;
        }
        assert(self.mutations@.subrange(0, i as int) =~= self.mutations@);
    }
}

/// The community after applying `effects` in order, with its version set to
/// the last effect's identifier (unchanged when there are none).
pub open spec fn apply_effect_seq(c: CommunityModel, effects: Seq<Effect>) -> CommunityModel
    decreases effects.len(),
{
    if effects.len() == 0 {
        c
    } else {
        let before = apply_effect_seq(c, effects.drop_last());
        CommunityModel {
            version: effects.last().id.0,
            ..apply_mutations(before, mutation_models(effects.last().mutations@))
        }
    }
}

impl Community {
    /// Applies `effects` to this community in sequence, advancing the version
    /// to the sequence ID of the last applied effect.
    ///
    /// Effects must be supplied in ascending sequence-ID order. If `effects`
    /// is empty the community is unchanged.
    pub fn apply_effects(&mut self, effects: Vec<Effect>)
        requires
            old(self).wf(),
        ensures
            final(self).wf(),
            final(self)@ == apply_effect_seq(old(self)@, effects@),
    {
        let mut i: usize = 0;
        while i < effects.len()
            invariant
                i <= effects@.len(),
                self.wf(),
                self@ == apply_effect_seq(old(self)@, effects@.subrange(0, i as int)),
            decreases effects@.len() - i,
        {
            proof {
                assert(effects@.subrange(0, i + 1).drop_last() =~= effects@.subrange(0, i as int));
            }
            effects[i].apply(self);
            self.set_version(effects[i].id);
            i = i + 1;
        }
        assert(effects@.subrange(0, i as int) =~= effects@);
    }
}

/// A log entry: an [`Event`] paired with its computed [`Effect`], or `None`
/// if the event has not yet been processed.
#[derive(Debug, PartialEq, Eq)]
pub struct Record {
    /// The recorded player intention.
    pub event: Event,
    /// The computed consequence, or `None` if not yet processed.
    pub effect: Option<Effect>,
}

impl Clone for Record {
    fn clone(&self) -> (r: Record)
        ensures
            r.event.id == self.event.id,
            r.event.community_id == self.event.community_id,
            r.event.payload@ == self.event.payload@,
            r.effect.is_some() == self.effect.is_some(),
            r.effect.is_some() ==> r.effect.unwrap().id == self.effect.unwrap().id
                && r.effect.unwrap().community_id == self.effect.unwrap().community_id
                && mutation_models(r.effect.unwrap().mutations@) == mutation_models(
                self.effect.unwrap().mutations@,
            ),
    {
        Record {
            event: self.event.clone(),
            effect: match &self.effect {
                Some(e) => Some(e.clone()),
                None => None,
            },
        }
    }
}

impl HasSequenceId for Record {
    fn sequence_id(&self) -> (id: SequenceId)
        ensures
            id == self.event.id,
    {
        self.event.id
    }
}

impl HasCommunityId for Record {
    fn community_id(&self) -> (id: CommunityId)
        ensures
            id == self.event.community_id,
    {
        self.event.community_id
    }
}

} // verus!
