//! Storage encodings of events, effects and their log items.

use vstd::prelude::*;
use vstd::string::*;

use crate::codec::{
    community_id_decode, community_id_from_bytes, encodes_id, fruit_decode, fruit_from_name,
    fruit_name, in_catalog, lemma_fruit_decode_name, lemma_id_decode_encoded,
    lemma_member_round_trip, member_decode, member_encodes, member_id_decode,
    member_id_from_bytes, member_in_catalog, MemberDto,
};
use crate::event_log::{
    fruit_models, mutation_models, Effect, Event, EventPayload, MutationModel, PayloadModel,
    Record, StateMutation,
};
use crate::fruit::{Fruit, FruitModel};
use crate::ids::{CommunityId, MemberId, SequenceId};
use crate::keys::{sk_effect, sk_event, sort_key};
use crate::storage_error::Error;

verus! {

/// The views of a sequence of strings.
pub open spec fn string_views(s: Seq<String>) -> Seq<Seq<char>> {
    s.map_values(|x: String| x@)
}

/// The view of an optional string.
pub open spec fn opt_string_view(o: Option<String>) -> Option<Seq<char>> {
    match o {
        Some(s) => Some(s@),
        None => None,
    }
}

/// The catalog fruits named by `names`, or the message of the first name that
/// is not a catalog fruit.
pub open spec fn fruits_decode(names: Seq<Seq<char>>) -> Result<Seq<FruitModel>, Seq<char>>
    decreases names.len(),
{
    if names.len() == 0 {
        Ok(Seq::empty())
    } else {
        match fruits_decode(names.drop_last()) {
            Err(e) => Err(e),
            Ok(fs) => match fruit_decode(names.last()) {
                Err(e) => Err(e),
                Ok(f) => Ok(fs.push(f)),
            },
        }
    }
}

/// Whether `names` are the names of `fruits`, in order.
pub open spec fn names_of(names: Seq<Seq<char>>, fruits: Seq<FruitModel>) -> bool {
    names.len() == fruits.len() && forall|i: int| 0 <= i < names.len() ==> names[i] == fruits[i].name
}

/// Catalog fruits are read back from their names.
pub proof fn lemma_fruits_round_trip(names: Seq<Seq<char>>, fruits: Seq<FruitModel>)
    requires
        names_of(names, fruits),
        forall|i: int| 0 <= i < fruits.len() ==> in_catalog(fruits[i]),
    ensures
        fruits_decode(names) == Ok::<Seq<FruitModel>, Seq<char>>(fruits),
    decreases names.len(),
{
    if names.len() > 0 {
        let n = names.len() - 1;
        lemma_fruits_round_trip(names.drop_last(), fruits.drop_last());
        lemma_fruit_decode_name(fruits[n]);
        assert(fruits.drop_last().push(fruits[n]) =~= fruits);
    } else {
        assert(fruits =~= Seq::<FruitModel>::empty());
    }
}

proof fn lemma_fruits_decode_err_extends(names: Seq<Seq<char>>, k: int, m: int)
    requires
        0 <= k <= m <= names.len(),
        fruits_decode(names.take(k)) is Err,
    ensures
        fruits_decode(names.take(m)) == fruits_decode(names.take(k)),
    decreases m - k,
{
    if m > k {
        lemma_fruits_decode_err_extends(names, k, m - 1);
        assert(names.take(m).drop_last() =~= names.take(m - 1));
    }
}

fn fruit_names(fruits: &Vec<Fruit>) -> (names: Vec<String>)
    ensures
        names_of(string_views(names@), fruit_models(fruits@)),
{
    let mut names: Vec<String> = Vec::new();
    let mut i: usize = 0;
    while i < fruits.len()
        invariant
            i <= fruits@.len(),
            names@.len() == i,
            forall|k: int| 0 <= k < i ==> (#[trigger] names@[k])@ == fruits@[k]@.name,
        decreases fruits@.len() - i,
    {
        names.push(fruit_name(fruits[i]));
        i = i + 1;
    }
    names
}

fn fruits_from_names(names: &Vec<String>) -> (r: Result<Vec<Fruit>, Error>)
    ensures
        match r {
            Ok(fs) => fruits_decode(string_views(names@)) == Ok::<Seq<FruitModel>, Seq<char>>(
                fruit_models(fs@),
            ),
            Err(e) => e matches Error::Codec { message } && fruits_decode(string_views(names@))
                == Err::<Seq<FruitModel>, Seq<char>>(message@),
        },
{
    let ghost sv = string_views(names@);
    let mut fruits: Vec<Fruit> = Vec::new();
    let mut i: usize = 0;
    assert(sv.take(0) =~= Seq::<Seq<char>>::empty());
    assert(fruit_models(fruits@) =~= Seq::<FruitModel>::empty());
    while i < names.len()
        invariant
            i <= names@.len(),
            sv == string_views(names@),
            fruits_decode(sv.take(i as int)) == Ok::<Seq<FruitModel>, Seq<char>>(
                fruit_models(fruits@),
            ),
        decreases names@.len() - i,
    {
        proof {
            assert(sv.take(i + 1).drop_last() =~= sv.take(i as int));
            assert(sv.take(i + 1).last() == names@[i as int]@);
        }
        match fruit_from_name(names[i].as_str()) {
            Ok(f) => {
                let ghost before = fruits@;
                fruits.push(f);
                assert(fruit_models(fruits@) =~= fruit_models(before).push(f@));
            },
            Err(e) => {
                proof {
                    lemma_fruits_decode_err_extends(sv, i + 1, sv.len() as int);
                    assert(sv.take(sv.len() as int) =~= sv);
                }
                return Err(e);
            },
        }
        i = i + 1;
    }
    assert(sv.take(i as int) =~= sv);
    Ok(fruits)
}

/// Serialised form of an [`EventPayload`]: identifiers as UUID bytes and
/// fruits by name.
#[derive(Debug, PartialEq, Eq)]
pub enum EventPayloadDto {
    Grant { count: usize },
    AddMember { display_name: String, member_id: Vec<u8> },
    RemoveMember { member_id: Vec<u8> },
    SetCommunityLuck { luck: u8 },
    SetMemberLuck { member_id: Vec<u8>, luck: u8 },
    Gift { sender_id: Vec<u8>, recipient_id: Vec<u8>, fruit: String, message: Option<String> },
    Burn { member_id: Vec<u8>, fruits: Vec<String> },
}

/// Whether `d` stores the payload `p`.
pub open spec fn payload_encodes(d: EventPayloadDto, p: PayloadModel) -> bool {
    match p {
        PayloadModel::Grant { count } => d matches EventPayloadDto::Grant { count: c } && c == count,
        PayloadModel::AddMember { display_name, member_id } => d matches EventPayloadDto::AddMember {
            display_name: n,
            member_id: b,
        } && n@ == display_name && encodes_id(b@, member_id.0),
        PayloadModel::RemoveMember { member_id } => d matches EventPayloadDto::RemoveMember {
            member_id: b,
        } && encodes_id(b@, member_id.0),
        PayloadModel::SetCommunityLuck { luck } => d matches EventPayloadDto::SetCommunityLuck {
            luck: l,
        } && l == luck,
        PayloadModel::SetMemberLuck { member_id, luck } => d matches EventPayloadDto::SetMemberLuck {
            member_id: b,
            luck: l,
        } && encodes_id(b@, member_id.0) && l == luck,
        PayloadModel::Gift { sender_id, recipient_id, fruit, message } => d matches EventPayloadDto::Gift {
            sender_id: s,
            recipient_id: r,
            fruit: f,
            message: m,
        } && encodes_id(s@, sender_id.0) && encodes_id(r@, recipient_id.0) && f@ == fruit.name
            && opt_string_view(m) == message,
        PayloadModel::Burn { member_id, fruits } => d matches EventPayloadDto::Burn {
            member_id: b,
            fruits: fs,
        } && encodes_id(b@, member_id.0) && names_of(string_views(fs@), fruits),
    }
}

/// The payload stored in `d`, or the message of the first field that cannot
/// be read, fields taken in declaration order.
pub open spec fn payload_decode(d: EventPayloadDto) -> Result<PayloadModel, Seq<char>> {
    match d {
        EventPayloadDto::Grant { count } => Ok(PayloadModel::Grant { count }),
        EventPayloadDto::AddMember { display_name, member_id } => match member_id_decode(
            member_id@,
        ) {
            Ok(id) => Ok(PayloadModel::AddMember { display_name: display_name@, member_id: id }),
            Err(e) => Err(e),
        },
        EventPayloadDto::RemoveMember { member_id } => match member_id_decode(member_id@) {
            Ok(id) => Ok(PayloadModel::RemoveMember { member_id: id }),
            Err(e) => Err(e),
        },
        EventPayloadDto::SetCommunityLuck { luck } => Ok(PayloadModel::SetCommunityLuck { luck }),
        EventPayloadDto::SetMemberLuck { member_id, luck } => match member_id_decode(member_id@) {
            Ok(id) => Ok(PayloadModel::SetMemberLuck { member_id: id, luck }),
            Err(e) => Err(e),
        },
        EventPayloadDto::Gift { sender_id, recipient_id, fruit, message } => match member_id_decode(
            sender_id@,
        ) {
            Err(e) => Err(e),
            Ok(s) => match member_id_decode(recipient_id@) {
                Err(e) => Err(e),
                Ok(r) => match fruit_decode(fruit@) {
                    Err(e) => Err(e),
                    Ok(f) => Ok(
                        PayloadModel::Gift {
                            sender_id: s,
                            recipient_id: r,
                            fruit: f,
                            message: opt_string_view(message),
                        },
                    ),
                },
            },
        },
        EventPayloadDto::Burn { member_id, fruits } => match member_id_decode(member_id@) {
            Err(e) => Err(e),
            Ok(id) => match fruits_decode(string_views(fruits@)) {
                Err(e) => Err(e),
                Ok(fs) => Ok(PayloadModel::Burn { member_id: id, fruits: fs }),
            },
        },
    }
}

/// Whether every fruit that the payload `p` names is a catalog fruit.
pub open spec fn payload_in_catalog(p: PayloadModel) -> bool {
    match p {
        PayloadModel::Gift { fruit, .. } => in_catalog(fruit),
        PayloadModel::Burn { fruits, .. } => forall|i: int|
            0 <= i < fruits.len() ==> in_catalog(#[trigger] fruits[i]),
        _ => true,
    }
}

/// A payload naming catalog fruits is read back from its stored form.
pub proof fn lemma_payload_round_trip(d: EventPayloadDto, p: PayloadModel)
    requires
        payload_encodes(d, p),
        payload_in_catalog(p),
    ensures
        payload_decode(d) == Ok::<PayloadModel, Seq<char>>(p),
{
    match p {
        PayloadModel::AddMember { member_id, .. } | PayloadModel::RemoveMember { member_id }
        | PayloadModel::SetMemberLuck { member_id, .. } => {
            let b = match d {
                EventPayloadDto::AddMember { member_id: b, .. } => b@,
                EventPayloadDto::RemoveMember { member_id: b } => b@,
                EventPayloadDto::SetMemberLuck { member_id: b, .. } => b@,
                _ => Seq::empty(),
            };
            lemma_id_decode_encoded(b, member_id.0, "invalid member_id"@);
        },
        PayloadModel::Gift { sender_id, recipient_id, fruit, message } => {
            if let EventPayloadDto::Gift { sender_id: s, recipient_id: r, .. } = d {
                lemma_id_decode_encoded(s@, sender_id.0, "invalid member_id"@);
                lemma_id_decode_encoded(r@, recipient_id.0, "invalid member_id"@);
                lemma_fruit_decode_name(fruit);
            }
        },
        PayloadModel::Burn { member_id, fruits } => {
            if let EventPayloadDto::Burn { member_id: b, fruits: fs } = d {
                lemma_id_decode_encoded(b@, member_id.0, "invalid member_id"@);
                lemma_fruits_round_trip(string_views(fs@), fruits);
            }
        },
        _ => {},
    }
}

fn copy_string(s: &String) -> (r: String)
    ensures
        r@ == s@,
{
    String::from_str(s.as_str())
}

fn copy_opt_string(o: &Option<String>) -> (r: Option<String>)
    ensures
        opt_string_view(r) == opt_string_view(*o),
{
    match o {
        Some(s) => Some(copy_string(s)),
        None => None,
    }
}

impl EventPayloadDto {
    /// The stored form of `p`.
    pub fn encode(p: &EventPayload) -> (d: EventPayloadDto)
        ensures
            payload_encodes(d, p@),
    {
        match p {
            EventPayload::Grant { count } => EventPayloadDto::Grant { count: *count },
            EventPayload::AddMember { display_name, member_id } => EventPayloadDto::AddMember {
                display_name: copy_string(display_name),
                member_id: member_id.uuid_bytes(),
            },
            EventPayload::RemoveMember { member_id } => EventPayloadDto::RemoveMember {
                member_id: member_id.uuid_bytes(),
            },
            EventPayload::SetCommunityLuck { luck } => EventPayloadDto::SetCommunityLuck {
                luck: *luck,
            },
            EventPayload::SetMemberLuck { member_id, luck } => EventPayloadDto::SetMemberLuck {
                member_id: member_id.uuid_bytes(),
                luck: *luck,
            },
            EventPayload::Gift { sender_id, recipient_id, fruit, message } => EventPayloadDto::Gift {
                sender_id: sender_id.uuid_bytes(),
                recipient_id: recipient_id.uuid_bytes(),
                fruit: fruit_name(*fruit),
                message: copy_opt_string(message),
            },
            EventPayload::Burn { member_id, fruits } => EventPayloadDto::Burn {
                member_id: member_id.uuid_bytes(),
                fruits: fruit_names(fruits),
            },
        }
    }

    /// The payload stored in this form.
    pub fn decode(&self) -> (r: Result<EventPayload, Error>)
        ensures
            match r {
                Ok(p) => payload_decode(*self) == Ok::<PayloadModel, Seq<char>>(p@),
                Err(e) => e matches Error::Codec { message } && payload_decode(*self) == Err::<
                    PayloadModel,
                    Seq<char>,
                >(message@),
            },
    {
        match self {
            EventPayloadDto::Grant { count } => Ok(EventPayload::Grant { count: *count }),
            EventPayloadDto::AddMember { display_name, member_id } => {
                match member_id_from_bytes(member_id.as_slice()) {
                    Ok(id) => Ok(
                        EventPayload::AddMember {
                            display_name: copy_string(display_name),
                            member_id: id,
                        },
                    ),
                    Err(e) => Err(e),
                }
            },
            EventPayloadDto::RemoveMember { member_id } => {
                match member_id_from_bytes(member_id.as_slice()) {
                    Ok(id) => Ok(EventPayload::RemoveMember { member_id: id }),
                    Err(e) => Err(e),
                }
            },
            EventPayloadDto::SetCommunityLuck { luck } => Ok(
                EventPayload::SetCommunityLuck { luck: *luck },
            ),
            EventPayloadDto::SetMemberLuck { member_id, luck } => {
                match member_id_from_bytes(member_id.as_slice()) {
                    Ok(id) => Ok(EventPayload::SetMemberLuck { member_id: id, luck: *luck }),
                    Err(e) => Err(e),
                }
            },
            EventPayloadDto::Gift { sender_id, recipient_id, fruit, message } => {
                let s = match member_id_from_bytes(sender_id.as_slice()) {
                    Ok(id) => id,
                    Err(e) => return Err(e),
                };
                let r = match member_id_from_bytes(recipient_id.as_slice()) {
                    Ok(id) => id,
                    Err(e) => return Err(e),
                };
                let f = match fruit_from_name(fruit.as_str()) {
                    Ok(f) => f,
                    Err(e) => return Err(e),
                };
                Ok(
                    EventPayload::Gift {
                        sender_id: s,
                        recipient_id: r,
                        fruit: f,
                        message: copy_opt_string(message),
                    },
                )
            },
            EventPayloadDto::Burn { member_id, fruits } => {
                let id = match member_id_from_bytes(member_id.as_slice()) {
                    Ok(id) => id,
                    Err(e) => return Err(e),
                };
                match fruits_from_names(fruits) {
                    Ok(fs) => Ok(EventPayload::Burn { member_id: id, fruits: fs }),
                    Err(e) => Err(e),
                }
            },
        }
    }
}

/// Serialised form of a [`StateMutation`]: identifiers as UUID bytes, fruits
/// by name and members in their stored form.
#[derive(Debug, PartialEq, Eq)]
pub enum StateMutationDto {
    AddFruitToMember { member_id: Vec<u8>, fruit: String },
    RemoveFruitFromMember { member_id: Vec<u8>, fruit: String },
    AddMember { member: MemberDto },
    RemoveMember { member_id: Vec<u8> },
    SetCommunityLuck { luck: u8 },
    SetMemberLuck { member_id: Vec<u8>, luck: u8 },
    GiftLuckBonus { member_id: Vec<u8>, delta: i16 },
    BurnLuckBonus { delta: i16 },
    OstentatiousGiftPenalty { member_id: Vec<u8>, delta: i16 },
    OstentatiousBurnPenalty { member_id: Vec<u8>, delta: i16 },
    QuidProQuoPenalty { delta: i16 },
}

/// Whether `d` stores the mutation `m`.
pub open spec fn mutation_encodes(d: StateMutationDto, m: MutationModel) -> bool {
    match m {
        MutationModel::AddFruitToMember { member_id, fruit } => d matches StateMutationDto::AddFruitToMember {
            member_id: b,
            fruit: f,
        } && encodes_id(b@, member_id.0) && f@ == fruit.name,
        MutationModel::RemoveFruitFromMember { member_id, fruit } => d matches StateMutationDto::RemoveFruitFromMember {
            member_id: b,
            fruit: f,
        } && encodes_id(b@, member_id.0) && f@ == fruit.name,
        MutationModel::AddMember { member } => d matches StateMutationDto::AddMember {
            member: md,
        } && member_encodes(md, member),
        MutationModel::RemoveMember { member_id } => d matches StateMutationDto::RemoveMember {
            member_id: b,
        } && encodes_id(b@, member_id.0),
        MutationModel::SetCommunityLuck { luck } => d matches StateMutationDto::SetCommunityLuck {
            luck: l,
        } && l == luck,
        MutationModel::SetMemberLuck { member_id, luck } => d matches StateMutationDto::SetMemberLuck {
            member_id: b,
            luck: l,
        } && encodes_id(b@, member_id.0) && l == luck,
        MutationModel::GiftLuckBonus { member_id, delta } => d matches StateMutationDto::GiftLuckBonus {
            member_id: b,
            delta: x,
        } && encodes_id(b@, member_id.0) && x == delta,
        MutationModel::BurnLuckBonus { delta } => d matches StateMutationDto::BurnLuckBonus {
            delta: x,
        } && x == delta,
        MutationModel::OstentatiousGiftPenalty { member_id, delta } => d matches StateMutationDto::OstentatiousGiftPenalty {
            member_id: b,
            delta: x,
        } && encodes_id(b@, member_id.0) && x == delta,
        MutationModel::OstentatiousBurnPenalty { member_id, delta } => d matches StateMutationDto::OstentatiousBurnPenalty {
            member_id: b,
            delta: x,
        } && encodes_id(b@, member_id.0) && x == delta,
        MutationModel::QuidProQuoPenalty { delta } => d matches StateMutationDto::QuidProQuoPenalty {
            delta: x,
        } && x == delta,
    }
}

/// The mutation stored in `d`, or the message of the first field that
/// cannot be read, fields taken in declaration order.
pub open spec fn mutation_decode(d: StateMutationDto) -> Result<MutationModel, Seq<char>> {
    match d {
        StateMutationDto::AddFruitToMember { member_id, fruit } => match member_id_decode(member_id@) {
            Err(e) => Err(e),
            Ok(id) => match fruit_decode(fruit@) {
                Err(e) => Err(e),
                Ok(f) => Ok(MutationModel::AddFruitToMember { member_id: id, fruit: f }),
            },
        },
        StateMutationDto::RemoveFruitFromMember { member_id, fruit } => match member_id_decode(
            member_id@,
        ) {
            Err(e) => Err(e),
            Ok(id) => match fruit_decode(fruit@) {
                Err(e) => Err(e),
                Ok(f) => Ok(MutationModel::RemoveFruitFromMember { member_id: id, fruit: f }),
            },
        },
        StateMutationDto::AddMember { member } => match member_decode(member) {
            Err(e) => Err(e),
            Ok(m) => Ok(MutationModel::AddMember { member: m }),
        },
        StateMutationDto::RemoveMember { member_id } => match member_id_decode(member_id@) {
            Err(e) => Err(e),
            Ok(id) => Ok(MutationModel::RemoveMember { member_id: id }),
        },
        StateMutationDto::SetCommunityLuck { luck } => Ok(MutationModel::SetCommunityLuck { luck }),
        StateMutationDto::SetMemberLuck { member_id, luck } => match member_id_decode(member_id@) {
            Err(e) => Err(e),
            Ok(id) => Ok(MutationModel::SetMemberLuck { member_id: id, luck }),
        },
        StateMutationDto::GiftLuckBonus { member_id, delta } => match member_id_decode(member_id@) {
            Err(e) => Err(e),
            Ok(id) => Ok(MutationModel::GiftLuckBonus { member_id: id, delta }),
        },
        StateMutationDto::BurnLuckBonus { delta } => Ok(MutationModel::BurnLuckBonus { delta }),
        StateMutationDto::OstentatiousGiftPenalty { member_id, delta } => match member_id_decode(
            member_id@,
        ) {
            Err(e) => Err(e),
            Ok(id) => Ok(MutationModel::OstentatiousGiftPenalty { member_id: id, delta }),
        },
        StateMutationDto::OstentatiousBurnPenalty { member_id, delta } => match member_id_decode(
            member_id@,
        ) {
            Err(e) => Err(e),
            Ok(id) => Ok(MutationModel::OstentatiousBurnPenalty { member_id: id, delta }),
        },
        StateMutationDto::QuidProQuoPenalty { delta } => Ok(MutationModel::QuidProQuoPenalty { delta }),
    }
}

/// Whether every fruit that the mutation `m` names or adds is a catalog fruit.
pub open spec fn mutation_in_catalog(m: MutationModel) -> bool {
    match m {
        MutationModel::AddFruitToMember { fruit, .. } => in_catalog(fruit),
        MutationModel::RemoveFruitFromMember { fruit, .. } => in_catalog(fruit),
        MutationModel::AddMember { member } => member_in_catalog(member),
        _ => true,
    }
}

/// The identifier bytes stored in a mutation, where it has one.
spec fn mutation_id_bytes(d: StateMutationDto) -> Seq<u8> {
    match d {
        StateMutationDto::AddFruitToMember { member_id, .. } => member_id@,
        StateMutationDto::RemoveFruitFromMember { member_id, .. } => member_id@,
        StateMutationDto::RemoveMember { member_id } => member_id@,
        StateMutationDto::SetMemberLuck { member_id, .. } => member_id@,
        StateMutationDto::GiftLuckBonus { member_id, .. } => member_id@,
        StateMutationDto::OstentatiousGiftPenalty { member_id, .. } => member_id@,
        StateMutationDto::OstentatiousBurnPenalty { member_id, .. } => member_id@,
        _ => Seq::empty(),
    }
}

/// A mutation naming catalog fruits is read back from its stored form.
pub proof fn lemma_mutation_round_trip(d: StateMutationDto, m: MutationModel)
    requires
        mutation_encodes(d, m),
        mutation_in_catalog(m),
    ensures
        mutation_decode(d) == Ok::<MutationModel, Seq<char>>(m),
{
    match m {
        MutationModel::AddFruitToMember { member_id, fruit }
        | MutationModel::RemoveFruitFromMember { member_id, fruit } => {
            lemma_id_decode_encoded(mutation_id_bytes(d), member_id.0, "invalid member_id"@);
            lemma_fruit_decode_name(fruit);
        },
        MutationModel::AddMember { member } => {
            if let StateMutationDto::AddMember { member: md } = d {
                lemma_member_round_trip(md, member);
            }
        },
        MutationModel::RemoveMember { member_id }
        | MutationModel::SetMemberLuck { member_id, .. }
        | MutationModel::GiftLuckBonus { member_id, .. }
        | MutationModel::OstentatiousGiftPenalty { member_id, .. }
        | MutationModel::OstentatiousBurnPenalty { member_id, .. } => {
            lemma_id_decode_encoded(mutation_id_bytes(d), member_id.0, "invalid member_id"@);
        },
        _ => {},
    }
}

impl StateMutationDto {
    /// The stored form of `m`.
    pub fn encode(m: &StateMutation) -> (d: StateMutationDto)
        ensures
            mutation_encodes(d, m@),
    {
        match m {
            StateMutation::AddFruitToMember { member_id, fruit } => StateMutationDto::AddFruitToMember {
                member_id: member_id.uuid_bytes(),
                fruit: fruit_name(*fruit),
            },
            StateMutation::RemoveFruitFromMember { member_id, fruit } =>
                StateMutationDto::RemoveFruitFromMember {
                member_id: member_id.uuid_bytes(),
                fruit: fruit_name(*fruit),
            },
            StateMutation::AddMember { member } => StateMutationDto::AddMember {
                member: MemberDto::encode(member),
            },
            StateMutation::RemoveMember { member_id } => StateMutationDto::RemoveMember {
                member_id: member_id.uuid_bytes(),
            },
            StateMutation::SetCommunityLuck { luck } => StateMutationDto::SetCommunityLuck {
                luck: *luck,
            },
            StateMutation::SetMemberLuck { member_id, luck } => StateMutationDto::SetMemberLuck {
                member_id: member_id.uuid_bytes(),
                luck: *luck,
            },
            StateMutation::GiftLuckBonus { member_id, delta } => StateMutationDto::GiftLuckBonus {
                member_id: member_id.uuid_bytes(),
                delta: *delta,
            },
            StateMutation::BurnLuckBonus { delta } => StateMutationDto::BurnLuckBonus {
                delta: *delta,
            },
            StateMutation::OstentatiousGiftPenalty { member_id, delta } =>
                StateMutationDto::OstentatiousGiftPenalty {
                member_id: member_id.uuid_bytes(),
                delta: *delta,
            },
            StateMutation::OstentatiousBurnPenalty { member_id, delta } =>
                StateMutationDto::OstentatiousBurnPenalty {
                member_id: member_id.uuid_bytes(),
                delta: *delta,
            },
            StateMutation::QuidProQuoPenalty { delta } => StateMutationDto::QuidProQuoPenalty {
                delta: *delta,
            },
        }
    }

    /// The mutation stored in this form.
    pub fn decode(&self) -> (r: Result<StateMutation, Error>)
        ensures
            match r {
                Ok(m) => mutation_decode(*self) == Ok::<MutationModel, Seq<char>>(m@),
                Err(e) => e matches Error::Codec { message } && mutation_decode(*self) == Err::<
                    MutationModel,
                    Seq<char>,
                >(message@),
            },
    {
        match self {
            StateMutationDto::AddFruitToMember { member_id, fruit } => {
                let id = match member_id_from_bytes(member_id.as_slice()) {
                    Ok(id) => id,
                    Err(e) => return Err(e),
                };
                match fruit_from_name(fruit.as_str()) {
                    Ok(f) => Ok(StateMutation::AddFruitToMember { member_id: id, fruit: f }),
                    Err(e) => Err(e),
                }
            },
            StateMutationDto::RemoveFruitFromMember { member_id, fruit } => {
                let id = match member_id_from_bytes(member_id.as_slice()) {
                    Ok(id) => id,
                    Err(e) => return Err(e),
                };
                match fruit_from_name(fruit.as_str()) {
                    Ok(f) => Ok(StateMutation::RemoveFruitFromMember { member_id: id, fruit: f }),
                    Err(e) => Err(e),
                }
            },
            StateMutationDto::AddMember { member } => match member.decode() {
                Ok(m) => Ok(StateMutation::AddMember { member: m }),
                Err(e) => Err(e),
            },
            StateMutationDto::RemoveMember { member_id } => {
                match member_id_from_bytes(member_id.as_slice()) {
                    Ok(id) => Ok(StateMutation::RemoveMember { member_id: id }),
                    Err(e) => Err(e),
                }
            },
            StateMutationDto::SetCommunityLuck { luck } => Ok(
                StateMutation::SetCommunityLuck { luck: *luck },
            ),
            StateMutationDto::SetMemberLuck { member_id, luck } => {
                match member_id_from_bytes(member_id.as_slice()) {
                    Ok(id) => Ok(StateMutation::SetMemberLuck { member_id: id, luck: *luck }),
                    Err(e) => Err(e),
                }
            },
            StateMutationDto::GiftLuckBonus { member_id, delta } => {
                match member_id_from_bytes(member_id.as_slice()) {
                    Ok(id) => Ok(StateMutation::GiftLuckBonus { member_id: id, delta: *delta }),
                    Err(e) => Err(e),
                }
            },
            StateMutationDto::BurnLuckBonus { delta } => Ok(
                StateMutation::BurnLuckBonus { delta: *delta },
            ),
            StateMutationDto::OstentatiousGiftPenalty { member_id, delta } => {
                match member_id_from_bytes(member_id.as_slice()) {
                    Ok(id) => Ok(
                        StateMutation::OstentatiousGiftPenalty { member_id: id, delta: *delta },
                    ),
                    Err(e) => Err(e),
                }
            },
            StateMutationDto::OstentatiousBurnPenalty { member_id, delta } => {
                match member_id_from_bytes(member_id.as_slice()) {
                    Ok(id) => Ok(
                        StateMutation::OstentatiousBurnPenalty { member_id: id, delta: *delta },
                    ),
                    Err(e) => Err(e),
                }
            },
            StateMutationDto::QuidProQuoPenalty { delta } => Ok(
                StateMutation::QuidProQuoPenalty { delta: *delta },
            ),
        }
    }
}

/// The stored item of an event.
#[derive(Debug, PartialEq, Eq)]
pub struct EventItem {
    /// Partition key: the UUID bytes of the community.
    pub pk: Vec<u8>,
    /// Sort key: `EVENT#` and the zero-padded sequence number.
    pub sk: String,
    /// The event's sequence number.
    pub seq: u64,
    /// Always `EVENT`.
    pub entity_type: String,
    /// Payload variant name, used to query events by type.
    pub event_type: String,
    /// The stored payload.
    pub payload: EventPayloadDto,
}

/// The stored item of an effect.
#[derive(Debug, PartialEq, Eq)]
pub struct EffectItem {
    /// Partition key: the UUID bytes of the community.
    pub pk: Vec<u8>,
    /// Sort key: `EFFECT#` and the zero-padded sequence number.
    pub sk: String,
    /// The effect's sequence number (that of its event).
    pub seq: u64,
    /// Always `EFFECT`.
    pub entity_type: String,
    /// The stored mutations, in order.
    pub mutations: Vec<StateMutationDto>,
}

/// The `event_type` attribute of a payload: the name of its variant.
pub open spec fn event_type_text(p: PayloadModel) -> Seq<char> {
    match p {
        PayloadModel::Grant { .. } => "Grant"@,
        PayloadModel::AddMember { .. } => "AddMember"@,
        PayloadModel::RemoveMember { .. } => "RemoveMember"@,
        PayloadModel::SetCommunityLuck { .. } => "SetCommunityLuck"@,
        PayloadModel::SetMemberLuck { .. } => "SetMemberLuck"@,
        PayloadModel::Gift { .. } => "Gift"@,
        PayloadModel::Burn { .. } => "Burn"@,
    }
}

/// The `event_type` attribute value for a payload: the name of its variant.
pub fn event_type_name(payload: &EventPayload) -> (s: &'static str)
    ensures
        s@ == event_type_text(payload@),
{
    match payload {
        EventPayload::Grant { .. } => "Grant",
        EventPayload::AddMember { .. } => "AddMember",
        EventPayload::RemoveMember { .. } => "RemoveMember",
        EventPayload::SetCommunityLuck { .. } => "SetCommunityLuck",
        EventPayload::SetMemberLuck { .. } => "SetMemberLuck",
        EventPayload::Gift { .. } => "Gift",
        EventPayload::Burn { .. } => "Burn",
    }
}

/// Whether `item` stores the event `e`.
pub open spec fn event_item_encodes(item: EventItem, e: Event) -> bool {
    &&& encodes_id(item.pk@, e.community_id.0)
    &&& item.sk@ == sort_key("EVENT#"@, e.id.0 as nat)
    &&& item.seq == e.id.0
    &&& item.entity_type@ == "EVENT"@
    &&& item.event_type@ == event_type_text(e.payload@)
    &&& payload_encodes(item.payload, e.payload@)
}

/// The event stored in `item` as (sequence id, community, payload), or the
/// message of the first part that cannot be read: the partition key, then
/// the payload.
pub open spec fn event_decode(item: EventItem) -> Result<
    (SequenceId, CommunityId, PayloadModel),
    Seq<char>,
> {
    match community_id_decode(item.pk@) {
        Err(e) => Err(e),
        Ok(c) => match payload_decode(item.payload) {
            Err(e) => Err(e),
            Ok(p) => Ok((SequenceId(item.seq), c, p)),
        },
    }
}

/// An event whose payload names catalog fruits is read back from its item.
pub proof fn lemma_event_round_trip(item: EventItem, e: Event)
    requires
        event_item_encodes(item, e),
        payload_in_catalog(e.payload@),
    ensures
        event_decode(item) == Ok::<(SequenceId, CommunityId, PayloadModel), Seq<char>>(
            (e.id, e.community_id, e.payload@),
        ),
{
    lemma_id_decode_encoded(item.pk@, e.community_id.0, "invalid community_id"@);
    lemma_payload_round_trip(item.payload, e.payload@);
}

/// The stored item of `event`.
pub fn encode_event(event: &Event) -> (item: EventItem)
    ensures
        event_item_encodes(item, *event),
{
    EventItem {
        pk: event.community_id.uuid_bytes(),
        sk: sk_event(event.id),
        seq: event.id.0,
        entity_type: String::from_str("EVENT"),
        event_type: String::from_str(event_type_name(&event.payload)),
        payload: EventPayloadDto::encode(&event.payload),
    }
}

/// The event stored in `item`.
pub fn decode_event(item: &EventItem) -> (r: Result<Event, Error>)
    ensures
        match r {
            Ok(e) => event_decode(*item) == Ok::<(SequenceId, CommunityId, PayloadModel), Seq<char>>(
                (e.id, e.community_id, e.payload@),
            ),
            Err(e) => e matches Error::Codec { message } && event_decode(*item) == Err::<
                (SequenceId, CommunityId, PayloadModel),
                Seq<char>,
            >(message@),
        },
{
    let community_id = match community_id_from_bytes(item.pk.as_slice()) {
        Ok(c) => c,
        Err(e) => return Err(e),
    };
    let payload = match item.payload.decode() {
        Ok(p) => p,
        Err(e) => return Err(e),
    };
    Ok(Event { id: SequenceId(item.seq), community_id, payload })
}

/// The mutations stored in `ds`, or the message of the first that cannot be read.
pub open spec fn mutations_decode(ds: Seq<StateMutationDto>) -> Result<
    Seq<MutationModel>,
    Seq<char>,
>
    decreases ds.len(),
{
    if ds.len() == 0 {
        Ok(Seq::empty())
    } else {
        match mutations_decode(ds.drop_last()) {
            Err(e) => Err(e),
            Ok(ms) => match mutation_decode(ds.last()) {
                Err(e) => Err(e),
                Ok(m) => Ok(ms.push(m)),
            },
        }
    }
}

/// Whether `ds` store the mutations `ms`, in order.
pub open spec fn mutations_encode(ds: Seq<StateMutationDto>, ms: Seq<MutationModel>) -> bool {
    ds.len() == ms.len() && forall|i: int| 0 <= i < ds.len() ==> mutation_encodes(ds[i], ms[i])
}

/// Mutations naming catalog fruits are read back from their stored forms.
pub proof fn lemma_mutations_round_trip(ds: Seq<StateMutationDto>, ms: Seq<MutationModel>)
    requires
        mutations_encode(ds, ms),
        forall|i: int| 0 <= i < ms.len() ==> mutation_in_catalog(#[trigger] ms[i]),
    ensures
        mutations_decode(ds) == Ok::<Seq<MutationModel>, Seq<char>>(ms),
    decreases ds.len(),
{
    if ds.len() > 0 {
        let n = ds.len() - 1;
        lemma_mutations_round_trip(ds.drop_last(), ms.drop_last());
        lemma_mutation_round_trip(ds[n], ms[n]);
        assert(ms.drop_last().push(ms[n]) =~= ms);
    } else {
        assert(ms =~= Seq::<MutationModel>::empty());
    }
}

proof fn lemma_mutations_decode_err_extends(ds: Seq<StateMutationDto>, k: int, m: int)
    requires
        0 <= k <= m <= ds.len(),
        mutations_decode(ds.take(k)) is Err,
    ensures
        mutations_decode(ds.take(m)) == mutations_decode(ds.take(k)),
    decreases m - k,
{
    if m > k {
        lemma_mutations_decode_err_extends(ds, k, m - 1);
        assert(ds.take(m).drop_last() =~= ds.take(m - 1));
    }
}

/// Whether `item` stores the effect `e`.
pub open spec fn effect_item_encodes(item: EffectItem, e: Effect) -> bool {
    &&& encodes_id(item.pk@, e.community_id.0)
    &&& item.sk@ == sort_key("EFFECT#"@, e.id.0 as nat)
    &&& item.seq == e.id.0
    &&& item.entity_type@ == "EFFECT"@
    &&& mutations_encode(item.mutations@, mutation_models(e.mutations@))
}

/// The effect stored in `item` as (sequence id, community, mutations), or the
/// message of the first part that cannot be read: the partition key, then
/// the mutations in order.
pub open spec fn effect_decode(item: EffectItem) -> Result<
    (SequenceId, CommunityId, Seq<MutationModel>),
    Seq<char>,
> {
    match community_id_decode(item.pk@) {
        Err(e) => Err(e),
        Ok(c) => match mutations_decode(item.mutations@) {
            Err(e) => Err(e),
            Ok(ms) => Ok((SequenceId(item.seq), c, ms)),
        },
    }
}

/// An effect whose mutations name catalog fruits is read back from its item.
pub proof fn lemma_effect_round_trip(item: EffectItem, e: Effect)
    requires
        effect_item_encodes(item, e),
        forall|i: int|
            0 <= i < e.mutations@.len() ==> mutation_in_catalog(#[trigger] e.mutations@[i]@),
    ensures
        effect_decode(item) == Ok::<(SequenceId, CommunityId, Seq<MutationModel>), Seq<char>>(
            (e.id, e.community_id, mutation_models(e.mutations@)),
        ),
{
    lemma_id_decode_encoded(item.pk@, e.community_id.0, "invalid community_id"@);
    let ms = mutation_models(e.mutations@);
    assert forall|i: int| 0 <= i < ms.len() implies mutation_in_catalog(#[trigger] ms[i]) by {
        assert(ms[i] == e.mutations@[i]@);
    }
    lemma_mutations_round_trip(item.mutations@, ms);
}

/// The stored item of `effect`.
pub fn encode_effect(effect: &Effect) -> (item: EffectItem)
    ensures
        effect_item_encodes(item, *effect),
{
    let mut mutations: Vec<StateMutationDto> = Vec::new();
    let mut i: usize = 0;
    while i < effect.mutations.len()
        invariant
            i <= effect.mutations@.len(),
            mutations@.len() == i,
            forall|k: int|
                0 <= k < i ==> mutation_encodes(#[trigger] mutations@[k], effect.mutations@[k]@),
        decreases effect.mutations@.len() - i,
    {
        mutations.push(StateMutationDto::encode(&effect.mutations[i]));
        i = i + 1;
    }
    EffectItem {
        pk: effect.community_id.uuid_bytes(),
        sk: sk_effect(effect.id),
        seq: effect.id.0,
        entity_type: String::from_str("EFFECT"),
        mutations,
    }
}

/// The effect stored in `item`.
pub fn decode_effect(item: &EffectItem) -> (r: Result<Effect, Error>)
    ensures
        match r {
            Ok(e) => effect_decode(*item) == Ok::<
                (SequenceId, CommunityId, Seq<MutationModel>),
                Seq<char>,
            >((e.id, e.community_id, mutation_models(e.mutations@))),
            Err(e) => e matches Error::Codec { message } && effect_decode(*item) == Err::<
                (SequenceId, CommunityId, Seq<MutationModel>),
                Seq<char>,
            >(message@),
        },
{
    let community_id = match community_id_from_bytes(item.pk.as_slice()) {
        Ok(c) => c,
        Err(e) => return Err(e),
    };
    let ghost ds = item.mutations@;
    let mut mutations: Vec<StateMutation> = Vec::new();
    let mut i: usize = 0;
    assert(ds.take(0) =~= Seq::<StateMutationDto>::empty());
    assert(mutation_models(mutations@) =~= Seq::<MutationModel>::empty());
    while i < item.mutations.len()
        invariant
            i <= ds.len(),
            ds == item.mutations@,
            community_id_decode(item.pk@) == Ok::<CommunityId, Seq<char>>(community_id),
            mutations_decode(ds.take(i as int)) == Ok::<Seq<MutationModel>, Seq<char>>(
                mutation_models(mutations@),
            ),
        decreases ds.len() - i,
    {
        proof {
            assert(ds.take(i + 1).drop_last() =~= ds.take(i as int));
            assert(ds.take(i + 1).last() == ds[i as int]);
        }
        match item.mutations[i].decode() {
            Ok(m) => {
                let ghost before = mutations@;
                mutations.push(m);
                assert(mutation_models(mutations@) =~= mutation_models(before).push(m@));
            },
            Err(e) => {
                proof {
                    assert(mutations_decode(ds.take(i + 1)) == Err::<Seq<MutationModel>, Seq<char>>(
                        mutation_decode(ds[i as int])->Err_0,
                    ));
                    lemma_mutations_decode_err_extends(ds, i + 1, ds.len() as int);
                    assert(ds.take(ds.len() as int) =~= ds);
                    assert(mutations_decode(ds) == Err::<Seq<MutationModel>, Seq<char>>(
                        mutation_decode(ds[i as int])->Err_0,
                    ));
                    assert(community_id_decode(item.pk@) == Ok::<CommunityId, Seq<char>>(community_id));
                    assert(effect_decode(*item) == Err::<
                        (SequenceId, CommunityId, Seq<MutationModel>),
                        Seq<char>,
                    >(mutation_decode(ds[i as int])->Err_0));
                }
                return Err(e);
            },
        }
        i = i + 1;
    }
    assert(ds.take(i as int) =~= ds);
    Ok(Effect { id: SequenceId(item.seq), community_id, mutations })
}

/// The first effect of `effects` with sequence id `id`, if any.
pub open spec fn first_effect_with_id(effects: Seq<Effect>, id: SequenceId) -> Option<int> {
    if exists|j: int| 0 <= j < effects.len() && effects[j].id == id {
        Some(
            choose|j: int|
                0 <= j < effects.len() && effects[j].id == id && forall|k: int|
                    0 <= k < j ==> effects[k].id != id,
        )
    } else {
        None
    }
}

/// Whether `x` is a copy of the first effect among `effects` that carries
/// the sequence id `id`, or `None` when no effect does.
pub open spec fn pairs_effect(x: Option<Effect>, id: SequenceId, effects: Seq<Effect>) -> bool {
    match first_effect_with_id(effects, id) {
        Some(j) => x matches Some(y) && y.id == effects[j].id && y.community_id
            == effects[j].community_id && mutation_models(y.mutations@) == mutation_models(
            effects[j].mutations@,
        ),
        None => x is None,
    }
}

/// Whether `r` holds the event stored in `item`, paired with its effect
/// among `effects`.
pub open spec fn record_from_item(r: Record, item: EventItem, effects: Seq<Effect>) -> bool {
    &&& event_decode(item) is Ok
    &&& r.event.id == event_decode(item)->Ok_0.0
    &&& r.event.community_id == event_decode(item)->Ok_0.1
    &&& r.event.payload@ == event_decode(item)->Ok_0.2
    &&& pairs_effect(r.effect, r.event.id, effects)
}

fn find_effect(effects: &Vec<Effect>, id: SequenceId) -> (r: Option<usize>)
    ensures
        match r {
            Some(j) => j < effects@.len() && first_effect_with_id(effects@, id) == Some(j as int),
            None => first_effect_with_id(effects@, id) is None,
        },
{
    let mut j: usize = 0;
    while j < effects.len()
        invariant
            j <= effects@.len(),
            forall|k: int| 0 <= k < j ==> effects@[k].id != id,
        decreases effects@.len() - j,
    {
        if effects[j].id.0 == id.0 {
            proof {
                let c = choose|c: int|
                    0 <= c < effects@.len() && effects@[c].id == id && forall|k: int|
                        0 <= k < c ==> effects@[k].id != id;
                assert(c == j);
            }
            return Some(j);
        }
        j = j + 1;
    }
    None
}

/// Pairs each stored event item, in order, with the first of `effects` that
/// carries its sequence id. Fails with the error of the first item that
/// cannot be decoded.
pub fn build_records(items: &Vec<EventItem>, effects: &Vec<Effect>) -> (r: Result<
    Vec<Record>,
    Error,
>)
    ensures
        match r {
            Ok(records) => records@.len() == items@.len() && forall|i: int|
                0 <= i < items@.len() ==> record_from_item(#[trigger] records@[i], items@[i], effects@),
            Err(e) => e matches Error::Codec { message } && exists|i: int|
                0 <= i < items@.len() && event_decode(items@[i]) == Err::<
                    (SequenceId, CommunityId, PayloadModel),
                    Seq<char>,
                >(message@) && forall|k: int| 0 <= k < i ==> event_decode(items@[k]) is Ok,
        },
{
    let mut records: Vec<Record> = Vec::new();
    let mut i: usize = 0;
    while i < items.len()
        invariant
            i <= items@.len(),
            records@.len() == i,
            forall|k: int|
                0 <= k < i ==> record_from_item(#[trigger] records@[k], items@[k], effects@),
        decreases items@.len() - i,
    {
        let event = match decode_event(&items[i]) {
            Ok(e) => e,
            Err(e) => {
                assert forall|k: int| 0 <= k < i implies event_decode(#[trigger] items@[k]) is Ok by {
                    assert(record_from_item(records@[k], items@[k], effects@));
                }
                return Err(e);
            },
        };
        let effect = match find_effect(effects, event.id) {
            Some(j) => Some(effects[j].clone()),
            None => None,
        };
        records.push(Record { event, effect });
        i = i + 1;
    }
    Ok(records)
}

} // verus!
