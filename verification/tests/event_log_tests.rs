use fruit_domain::community::Community;
use fruit_domain::event_log::{apply_luck_delta, Effect, Event, EventPayload, Record, StateMutation};
use fruit_domain::fruit::strawberry;
use fruit_domain::ids::{CommunityId, HasCommunityId, HasSequenceId, IntegerIdentifier, MemberId, SequenceId};
use fruit_domain::member::Member;

#[test]
fn sequence_id_as_u64_returns_inner_value() {
    assert_eq!(SequenceId::new(42).as_u64(), 42);
}

#[test]
fn sequence_id_display_formats_correctly() {
    assert_eq!(SequenceId::new(5).to_display_string(), "SequenceId(5)");
}

#[test]
fn sequence_id_zero_and_from_u64() {
    assert_eq!(SequenceId::zero(), SequenceId::new(0));
    assert_eq!(SequenceId::from_u64(7), SequenceId(7));
    assert_eq!(SequenceId::new(u64::MAX).to_display_string(), "SequenceId(18446744073709551615)");
}

#[test]
fn event_record_getters_delegate_to_event_fields() {
    let event = Event {
        id: SequenceId::new(1),
        community_id: CommunityId::new(),
        payload: EventPayload::Grant { count: 1 },
    };
    let effect = Effect { id: SequenceId::new(1), community_id: event.community_id, mutations: Vec::new() };
    let record = Record { event: event.clone(), effect: Some(effect) };
    assert_eq!(record.sequence_id(), event.id);
    assert_eq!(record.community_id(), event.community_id);
}

fn community_with_alice() -> (Community, MemberId) {
    let mut community = Community::new();
    let member = Member::new("Alice");
    let id = member.id;
    community.add_member(member);
    (community, id)
}

#[test]
fn event_log_tests_apply_adds_fruit_to_member_bag() {
    let (mut community, alice_id) = community_with_alice();
    let effect = Effect {
        id: SequenceId::new(2),
        community_id: community.id,
        mutations: vec![StateMutation::AddFruitToMember { member_id: alice_id, fruit: strawberry() }],
    };
    effect.apply(&mut community);
    assert_eq!(community.member(alice_id).unwrap().bag.count(strawberry()), 1);
}

#[test]
fn event_log_tests_apply_skips_mutation_for_absent_member() {
    let (mut community, _) = community_with_alice();
    let absent_id = MemberId::new();
    let before = community.clone();
    let effect = Effect {
        id: SequenceId::new(2),
        community_id: community.id,
        mutations: vec![StateMutation::AddFruitToMember { member_id: absent_id, fruit: strawberry() }],
    };
    effect.apply(&mut community);
    assert_eq!(community, before);
}

#[test]
fn event_log_tests_apply_with_no_mutations_leaves_community_unchanged() {
    let (mut community, _) = community_with_alice();
    let before = community.clone();
    let effect = Effect { id: SequenceId::new(2), community_id: community.id, mutations: vec![] };
    effect.apply(&mut community);
    assert_eq!(community, before);
}

#[test]
fn effect_apply_adds_fruit_to_member_bag() {
    let (mut community, alice_id) = community_with_alice();
    let effect = Effect {
        id: SequenceId::from_u64(2),
        community_id: community.id,
        mutations: vec![StateMutation::AddFruitToMember { member_id: alice_id, fruit: strawberry() }],
    };
    effect.apply(&mut community);
    assert_eq!(community.member(alice_id).unwrap().bag.count(strawberry()), 1);
}

#[test]
fn effect_apply_skips_mutation_for_absent_member() {
    let (mut community, _) = community_with_alice();
    let absent_id = MemberId::new();
    let before = community.clone();
    let effect = Effect {
        id: SequenceId::from_u64(2),
        community_id: community.id,
        mutations: vec![StateMutation::AddFruitToMember { member_id: absent_id, fruit: strawberry() }],
    };
    effect.apply(&mut community);
    assert_eq!(community, before);
}

#[test]
fn effect_apply_with_no_mutations_leaves_community_unchanged() {
    let (mut community, _) = community_with_alice();
    let before = community.clone();
    let effect = Effect { id: SequenceId::from_u64(2), community_id: community.id, mutations: vec![] };
    effect.apply(&mut community);
    assert_eq!(community, before);
}

#[test]
fn apply_add_member_inserts_member() {
    let mut community = Community::new();
    let member = Member::new("Bob");
    let bob_id = member.id;
    let effect = Effect {
        id: SequenceId::new(1),
        community_id: community.id,
        mutations: vec![StateMutation::AddMember { member: member.clone() }],
    };
    effect.apply(&mut community);
    assert_eq!(community.member(bob_id), Some(&member));
}

#[test]
fn apply_remove_member_removes_member() {
    let (mut community, alice_id) = community_with_alice();
    let effect = Effect {
        id: SequenceId::new(2),
        community_id: community.id,
        mutations: vec![StateMutation::RemoveMember { member_id: alice_id }],
    };
    effect.apply(&mut community);
    assert_eq!(community, Community::new().with_id(community.id));
}

#[test]
fn apply_remove_fruit_from_member_removes_one() {
    let (mut community, alice_id) = community_with_alice();
    community.give_fruit(alice_id, strawberry());
    let effect = Effect {
        id: SequenceId::new(2),
        community_id: community.id,
        mutations: vec![StateMutation::RemoveFruitFromMember { member_id: alice_id, fruit: strawberry() }],
    };
    effect.apply(&mut community);
    assert_eq!(community.member(alice_id).unwrap().bag.count(strawberry()), 0);
}

#[test]
fn apply_remove_fruit_from_member_skips_absent_member() {
    let (mut community, _) = community_with_alice();
    let absent_id = MemberId::new();
    let before = community.clone();
    let effect = Effect {
        id: SequenceId::new(2),
        community_id: community.id,
        mutations: vec![StateMutation::RemoveFruitFromMember { member_id: absent_id, fruit: strawberry() }],
    };
    effect.apply(&mut community);
    assert_eq!(community, before);
}

#[test]
fn apply_set_community_luck_updates_luck() {
    let (mut community, _) = community_with_alice();
    let effect = Effect {
        id: SequenceId::new(2),
        community_id: community.id,
        mutations: vec![StateMutation::SetCommunityLuck { luck: 100 }],
    };
    effect.apply(&mut community);
    assert_eq!(community.luck_raw() as f64 / u8::MAX as f64, 100.0 / u8::MAX as f64);
}

#[test]
fn apply_set_member_luck_updates_member_luck() {
    let (mut community, alice_id) = community_with_alice();
    let effect = Effect {
        id: SequenceId::new(2),
        community_id: community.id,
        mutations: vec![StateMutation::SetMemberLuck { member_id: alice_id, luck: 200 }],
    };
    effect.apply(&mut community);
    assert_eq!(community.member(alice_id).unwrap().luck_raw() as f64 / u8::MAX as f64, 200.0 / u8::MAX as f64);
}

#[test]
fn apply_set_member_luck_skips_absent_member() {
    let (mut community, _) = community_with_alice();
    let absent_id = MemberId::new();
    let before = community.clone();
    let effect = Effect {
        id: SequenceId::new(2),
        community_id: community.id,
        mutations: vec![StateMutation::SetMemberLuck { member_id: absent_id, luck: 50 }],
    };
    effect.apply(&mut community);
    assert_eq!(community, before);
}

#[test]
fn luck_deltas_are_clamped() {
    assert_eq!(apply_luck_delta(250, 10), 255);
    assert_eq!(apply_luck_delta(5, -10), 0);
    assert_eq!(apply_luck_delta(100, -30), 70);
    assert_eq!(apply_luck_delta(0, i16::MAX), 255);
    assert_eq!(apply_luck_delta(255, i16::MIN), 0);
}

#[test]
fn luck_bonus_and_penalty_mutations_adjust_luck() {
    let (mut community, alice_id) = community_with_alice();
    let effect = Effect {
        id: SequenceId::new(3),
        community_id: community.id,
        mutations: vec![
            StateMutation::GiftLuckBonus { member_id: alice_id, delta: 40 },
            StateMutation::OstentatiousGiftPenalty { member_id: alice_id, delta: -15 },
            StateMutation::BurnLuckBonus { delta: 20 },
            StateMutation::QuidProQuoPenalty { delta: -50 },
        ],
    };
    effect.apply(&mut community);
    assert_eq!(community.member(alice_id).unwrap().luck_raw(), 25);
    assert_eq!(community.luck_raw(), 0);
}

#[test]
fn apply_effects_in_two_batches_equals_one() {
    let (mut a, alice_id) = community_with_alice();
    let mut b = a.clone();
    let e = |id: u64| Effect {
        id: SequenceId::new(id),
        community_id: a.id,
        mutations: vec![StateMutation::AddFruitToMember { member_id: alice_id, fruit: strawberry() }],
    };
    let all = vec![e(1), e(2), e(3)];
    let first = vec![e(1)];
    let second = vec![e(2), e(3)];
    a.apply_effects(all);
    b.apply_effects(first);
    b.apply_effects(second);
    assert_eq!(a, b);
    assert_eq!(a.version(), SequenceId::new(3));
}
