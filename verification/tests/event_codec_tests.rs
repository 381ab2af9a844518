use fruit_domain::bag::Bag;
use fruit_domain::codec::MemberDto;
use fruit_domain::event_codec::{
    build_records, decode_effect, decode_event, encode_effect, encode_event, event_type_name, EffectItem,
    EventItem, EventPayloadDto, StateMutationDto,
};
use fruit_domain::event_log::{Effect, Event, EventPayload, Record, StateMutation};
use fruit_domain::fruit::{fruits, grapes, melon};
use fruit_domain::ids::{CommunityId, MemberId, SequenceId};
use fruit_domain::keys::{sk_effect, sk_effect_range_after, sk_event, sk_event_range};
use fruit_domain::member::Member;
use fruit_domain::storage_error::Error;

fn community_id() -> CommunityId {
    CommunityId::from_uuid_bytes(&[1u8; 16])
}

fn member_id() -> MemberId {
    MemberId::from_uuid_bytes(&[2u8; 16])
}

fn member_id_2() -> MemberId {
    MemberId::from_uuid_bytes(&[3u8; 16])
}

fn seq(n: u64) -> SequenceId {
    SequenceId::new(n)
}

fn make_event(id: SequenceId, payload: EventPayload) -> Event {
    Event { id, community_id: community_id(), payload }
}

fn make_effect(id: SequenceId, mutations: Vec<StateMutation>) -> Effect {
    Effect { id, community_id: community_id(), mutations }
}

fn round_trip_event(event: Event) {
    let encoded = encode_event(&event);
    let decoded = decode_event(&encoded).unwrap();
    assert_eq!(decoded, event);
}

#[test]
fn event_payload_grant_round_trips() {
    round_trip_event(make_event(seq(1), EventPayload::Grant { count: 5 }));
}

#[test]
fn event_payload_add_member_round_trips() {
    round_trip_event(make_event(
        seq(2),
        EventPayload::AddMember { display_name: "Alice".to_string(), member_id: member_id() },
    ));
}

#[test]
fn event_payload_remove_member_round_trips() {
    round_trip_event(make_event(seq(3), EventPayload::RemoveMember { member_id: member_id() }));
}

#[test]
fn event_payload_set_community_luck_round_trips() {
    round_trip_event(make_event(seq(4), EventPayload::SetCommunityLuck { luck: 128 }));
}

#[test]
fn event_payload_set_member_luck_round_trips() {
    round_trip_event(make_event(seq(5), EventPayload::SetMemberLuck { member_id: member_id(), luck: 64 }));
}

#[test]
fn event_payload_gift_with_message_round_trips() {
    round_trip_event(make_event(
        seq(6),
        EventPayload::Gift {
            sender_id: member_id(),
            recipient_id: member_id_2(),
            fruit: fruits()[0],
            message: Some("hello".to_string()),
        },
    ));
}

#[test]
fn event_payload_gift_without_message_round_trips() {
    round_trip_event(make_event(
        seq(7),
        EventPayload::Gift { sender_id: member_id(), recipient_id: member_id_2(), fruit: fruits()[0], message: None },
    ));
}

#[test]
fn event_payload_burn_round_trips() {
    round_trip_event(make_event(
        seq(8),
        EventPayload::Burn { member_id: member_id(), fruits: vec![fruits()[0], fruits()[1]] },
    ));
}

fn round_trip_effect(mutations: Vec<StateMutation>) {
    let effect = make_effect(seq(1), mutations);
    let encoded = encode_effect(&effect);
    let decoded = decode_effect(&encoded).unwrap();
    assert_eq!(decoded, effect);
}

#[test]
fn mutation_add_fruit_to_member_round_trips() {
    round_trip_effect(vec![StateMutation::AddFruitToMember { member_id: member_id(), fruit: fruits()[0] }]);
}

#[test]
fn mutation_remove_fruit_from_member_round_trips() {
    round_trip_effect(vec![StateMutation::RemoveFruitFromMember { member_id: member_id(), fruit: fruits()[0] }]);
}

#[test]
fn mutation_add_member_round_trips() {
    let bag = Bag::new().insert(grapes()).insert(melon());
    let member = Member::new("Alice").with_id(member_id()).with_bag(bag);
    round_trip_effect(vec![StateMutation::AddMember { member }]);
}

#[test]
fn mutation_remove_member_round_trips() {
    round_trip_effect(vec![StateMutation::RemoveMember { member_id: member_id() }]);
}

#[test]
fn mutation_set_community_luck_round_trips() {
    round_trip_effect(vec![StateMutation::SetCommunityLuck { luck: 200 }]);
}

#[test]
fn mutation_set_member_luck_round_trips() {
    round_trip_effect(vec![StateMutation::SetMemberLuck { member_id: member_id(), luck: 100 }]);
}

#[test]
fn mutation_gift_luck_bonus_round_trips() {
    round_trip_effect(vec![StateMutation::GiftLuckBonus { member_id: member_id(), delta: 10 }]);
}

#[test]
fn mutation_burn_luck_bonus_round_trips() {
    round_trip_effect(vec![StateMutation::BurnLuckBonus { delta: 5 }]);
}

#[test]
fn mutation_ostentatious_gift_penalty_round_trips() {
    round_trip_effect(vec![StateMutation::OstentatiousGiftPenalty { member_id: member_id(), delta: -15 }]);
}

#[test]
fn mutation_ostentatious_burn_penalty_round_trips() {
    round_trip_effect(vec![StateMutation::OstentatiousBurnPenalty { member_id: member_id(), delta: -20 }]);
}

#[test]
fn mutation_quid_pro_quo_penalty_round_trips() {
    round_trip_effect(vec![StateMutation::QuidProQuoPenalty { delta: -3 }]);
}

#[test]
fn event_type_name_grant() {
    assert_eq!(event_type_name(&EventPayload::Grant { count: 1 }), "Grant");
}

#[test]
fn event_type_name_add_member() {
    assert_eq!(
        event_type_name(&EventPayload::AddMember { display_name: "X".to_string(), member_id: member_id() }),
        "AddMember"
    );
}

#[test]
fn event_type_name_remove_member() {
    assert_eq!(event_type_name(&EventPayload::RemoveMember { member_id: member_id() }), "RemoveMember");
}

#[test]
fn event_type_name_set_community_luck() {
    assert_eq!(event_type_name(&EventPayload::SetCommunityLuck { luck: 0 }), "SetCommunityLuck");
}

#[test]
fn event_type_name_set_member_luck() {
    assert_eq!(event_type_name(&EventPayload::SetMemberLuck { member_id: member_id(), luck: 0 }), "SetMemberLuck");
}

#[test]
fn event_type_name_gift() {
    assert_eq!(
        event_type_name(&EventPayload::Gift {
            sender_id: member_id(),
            recipient_id: member_id_2(),
            fruit: fruits()[0],
            message: None,
        }),
        "Gift"
    );
}

#[test]
fn event_type_name_burn() {
    assert_eq!(event_type_name(&EventPayload::Burn { member_id: member_id(), fruits: vec![] }), "Burn");
}

#[test]
fn sk_event_formats_zero_padded_20_digits() {
    assert_eq!(sk_event(seq(1)), "EVENT#00000000000000000001");
}

#[test]
fn sk_event_formats_large_value() {
    assert_eq!(sk_event(seq(u64::MAX)), format!("EVENT#{:020}", u64::MAX));
}

#[test]
fn sk_effect_formats_zero_padded_20_digits() {
    assert_eq!(sk_effect(seq(1)), "EFFECT#00000000000000000001");
}

#[test]
fn sk_event_range_lower_is_after_plus_one() {
    let (lower, _) = sk_event_range(seq(5), None);
    assert_eq!(lower, "EVENT#00000000000000000006");
}

#[test]
fn sk_event_range_upper_is_u64_max_when_no_before() {
    let (_, upper) = sk_event_range(seq(5), None);
    assert_eq!(upper, format!("EVENT#{:020}", u64::MAX));
}

#[test]
fn sk_event_range_upper_is_before_minus_one() {
    let (_, upper) = sk_event_range(seq(0), Some(seq(10)));
    assert_eq!(upper, "EVENT#00000000000000000009");
}

#[test]
fn sk_event_range_saturating_add_at_max() {
    let (lower, _) = sk_event_range(SequenceId::new(u64::MAX), None);
    assert_eq!(lower, format!("EVENT#{:020}", u64::MAX));
}

#[test]
fn sk_event_range_saturating_sub_at_zero() {
    let (_, upper) = sk_event_range(seq(0), Some(SequenceId::new(0)));
    assert_eq!(upper, "EVENT#00000000000000000000");
}

#[test]
fn sk_effect_range_after_lower_is_after_plus_one() {
    let (lower, _) = sk_effect_range_after(seq(3));
    assert_eq!(lower, "EFFECT#00000000000000000004");
}

#[test]
fn sk_effect_range_after_upper_is_u64_max() {
    let (_, upper) = sk_effect_range_after(seq(3));
    assert_eq!(upper, format!("EFFECT#{:020}", u64::MAX));
}

#[test]
fn build_records_with_matching_effect() {
    let event = make_event(seq(1), EventPayload::Grant { count: 3 });
    let effect = make_effect(seq(1), vec![]);
    let event_item = encode_event(&event);
    let records = build_records(&vec![event_item], &vec![effect.clone()]).unwrap();
    assert_eq!(records, vec![Record { event, effect: Some(effect) }]);
}

#[test]
fn build_records_without_effect() {
    let event = make_event(seq(1), EventPayload::Grant { count: 3 });
    let event_item = encode_event(&event);
    let records = build_records(&vec![event_item], &vec![]).unwrap();
    assert_eq!(records, vec![Record { event, effect: None }]);
}

#[test]
fn build_records_fails_on_first_bad_item() {
    let good = encode_event(&make_event(seq(1), EventPayload::Grant { count: 3 }));
    let mut bad = encode_event(&make_event(seq(2), EventPayload::Grant { count: 3 }));
    bad.pk = vec![9u8; 3];
    let result = build_records(&vec![good, bad], &vec![]);
    assert_eq!(
        result,
        Err(Error::Codec { message: "invalid community_id: expected 16 bytes, got 3".to_string() })
    );
}

#[test]
fn decode_event_bad_pk_returns_codec_error() {
    let item = EventItem {
        pk: vec![0u8; 5],
        sk: sk_event(seq(1)),
        seq: 1,
        entity_type: "EVENT".to_string(),
        event_type: "Grant".to_string(),
        payload: EventPayloadDto::Grant { count: 1 },
    };
    let result = decode_event(&item);
    assert!(result.is_err());
    assert_eq!(
        result,
        Err(Error::Codec { message: "invalid community_id: expected 16 bytes, got 5".to_string() })
    );
}

#[test]
fn decode_event_unknown_fruit_in_gift_payload_returns_codec_error() {
    let mid_bytes = vec![2u8; 16];
    let item = EventItem {
        pk: vec![1u8; 16],
        sk: sk_event(seq(1)),
        seq: 1,
        entity_type: "EVENT".to_string(),
        event_type: "Gift".to_string(),
        payload: EventPayloadDto::Gift {
            sender_id: mid_bytes.clone(),
            recipient_id: mid_bytes,
            fruit: "NotARealFruit".to_string(),
            message: None,
        },
    };
    let result = decode_event(&item);
    assert!(result.is_err());
    assert_eq!(result, Err(Error::Codec { message: "unknown fruit 'NotARealFruit'".to_string() }));
}

#[test]
fn decode_effect_bad_pk_returns_codec_error() {
    let item = EffectItem {
        pk: vec![0u8; 5],
        sk: sk_effect(seq(1)),
        seq: 1,
        entity_type: "EFFECT".to_string(),
        mutations: vec![],
    };
    let result = decode_effect(&item);
    assert!(result.is_err());
}

#[test]
fn decode_effect_unknown_fruit_in_mutation_returns_codec_error() {
    let item = EffectItem {
        pk: vec![1u8; 16],
        sk: sk_effect(seq(1)),
        seq: 1,
        entity_type: "EFFECT".to_string(),
        mutations: vec![StateMutationDto::AddFruitToMember { member_id: vec![2u8; 16], fruit: "NotAFruit".to_string() }],
    };
    let result = decode_effect(&item);
    assert!(result.is_err());
    assert_eq!(result, Err(Error::Codec { message: "unknown fruit 'NotAFruit'".to_string() }));
}

#[test]
fn encoded_event_item_carries_keys_and_type() {
    let event = make_event(seq(12), EventPayload::SetCommunityLuck { luck: 3 });
    let item = encode_event(&event);
    assert_eq!(item.pk, vec![1u8; 16]);
    assert_eq!(item.sk, "EVENT#00000000000000000012");
    assert_eq!(item.seq, 12);
    assert_eq!(item.entity_type, "EVENT");
    assert_eq!(item.event_type, "SetCommunityLuck");
    assert_eq!(item.payload, EventPayloadDto::SetCommunityLuck { luck: 3 });
}

#[test]
fn member_dto_stores_bag_by_fruit_name() {
    let member = Member::new("Alice").with_id(member_id()).with_luck(9).with_bag(Bag::new().insert(grapes()).insert(grapes()));
    let dto = MemberDto::encode(&member);
    assert_eq!(dto.id, vec![2u8; 16]);
    assert_eq!(dto.display_name, "Alice");
    assert_eq!(dto.luck, 9);
    assert_eq!(dto.bag, vec![("Grapes".to_string(), 2)]);
    assert_eq!(dto.decode(), Ok(member));
}

#[test]
fn member_dto_with_short_id_is_refused() {
    let dto = MemberDto { id: vec![1u8; 4], display_name: "A".to_string(), luck: 0, bag: vec![] };
    assert_eq!(
        dto.decode(),
        Err(Error::Codec { message: "invalid member_id: expected 16 bytes, got 4".to_string() })
    );
}
