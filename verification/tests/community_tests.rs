use fruit_domain::bag::Bag;
use fruit_domain::community::Community;
use fruit_domain::event_log::{Effect, StateMutation};
use fruit_domain::fruit::{grapes, pear, strawberry};
use fruit_domain::ids::{CommunityId, HasCommunityId, MemberId, SequenceId};
use fruit_domain::member::Member;

#[test]
fn community_id_returns_id() {
    let community = Community::new();
    assert_eq!(community.community_id(), community.id);
}

#[test]
fn new_community_is_empty() {
    let community = Community::new();
    assert_eq!(community, Community::new().with_id(community.id));
    assert_eq!(community.member_count(), 0);
    assert_eq!(community.luck_raw(), 0);
    assert_eq!(community.version(), SequenceId::new(0));
}

#[test]
fn add_member_inserts_by_id() {
    let mut community = Community::new();
    let member = Member::new("Alice");
    let id = member.id;
    assert!(community.add_member(member));
    let mut expected = Community::new().with_id(community.id);
    expected.add_member(Member::new("Alice").with_id(id));
    assert_eq!(community, expected);
}

#[test]
fn add_member_returns_false_on_duplicate() {
    let mut community = Community::new();
    let member = Member::new("Alice");
    let id = member.id;
    let duplicate = Member::new("Alice2").with_id(id);
    assert!(community.add_member(member));
    assert!(!community.add_member(duplicate));
    let mut expected = Community::new().with_id(community.id);
    expected.add_member(Member::new("Alice").with_id(id));
    assert_eq!(community, expected);
}

#[test]
fn remove_member_returns_member() {
    let mut community = Community::new();
    let member = Member::new("Bob");
    let id = member.id;
    community.add_member(member);
    let removed = community.remove_member(id).unwrap();
    assert_eq!(removed, Member::new("Bob").with_id(id));
    assert_eq!(community, Community::new().with_id(community.id));
}

#[test]
fn remove_member_returns_none_for_unknown_id() {
    let mut community = Community::new();
    assert!(community.remove_member(MemberId::new()).is_none());
}

#[test]
fn community_id_as_uuid_roundtrips() {
    let id = CommunityId::new();
    assert_eq!(id, CommunityId::from_uuid_bytes(&id.uuid_bytes()));
}

#[test]
fn default_equals_new() {
    let community = Community::default();
    assert_eq!(community, Community::new().with_id(community.id));
}

#[test]
fn community_tests_with_luck_sets_luck() {
    let community = Community::new().with_luck(50);
    assert_eq!(community.luck_raw() as f64 / u8::MAX as f64, 50.0 / u8::MAX as f64);
}

#[test]
fn with_version_sets_version() {
    let v = SequenceId::new(42);
    assert_eq!(Community::new().with_version(v).version, v);
}

#[test]
fn apply_effects_applies_mutations_and_advances_version() {
    let mut community = Community::new();
    let member = Member::new("Alice");
    let alice_id = member.id;
    community.add_member(member);

    let v1 = SequenceId::new(1);
    let v2 = SequenceId::new(2);
    let effects = vec![
        Effect {
            id: v1,
            community_id: community.id,
            mutations: vec![StateMutation::AddFruitToMember { member_id: alice_id, fruit: strawberry() }],
        },
        Effect {
            id: v2,
            community_id: community.id,
            mutations: vec![StateMutation::AddFruitToMember { member_id: alice_id, fruit: strawberry() }],
        },
    ];

    community.apply_effects(effects);

    assert_eq!(community.version, v2);
    assert_eq!(community.member(alice_id).unwrap().bag.count(strawberry()), 2);
}

#[test]
fn members_are_kept_in_identifier_order() {
    let mut community = Community::new();
    community.add_member(Member::new("C").with_id(MemberId(30)));
    community.add_member(Member::new("A").with_id(MemberId(10)));
    community.add_member(Member::new("B").with_id(MemberId(20)));
    let ids: Vec<MemberId> = community.members().iter().map(|m| m.id).collect();
    assert_eq!(ids, vec![MemberId(10), MemberId(20), MemberId(30)]);
    assert!(community.is_well_formed());
    assert_eq!(community.member_count(), 3);
}

#[test]
fn member_named_finds_first_in_identifier_order() {
    let mut community = Community::new();
    community.add_member(Member::new("Ann").with_id(MemberId(2)));
    community.add_member(Member::new("Ann").with_id(MemberId(1)));
    community.add_member(Member::new("Bo").with_id(MemberId(3)));
    assert_eq!(community.member_named("Ann"), Some(MemberId(1)));
    assert_eq!(community.member_named("Bo"), Some(MemberId(3)));
    assert_eq!(community.member_named("Cy"), None);
}

#[test]
fn fruit_and_luck_changes_reach_only_that_member() {
    let mut community = Community::new();
    community.add_member(Member::new("A").with_id(MemberId(1)));
    community.add_member(Member::new("B").with_id(MemberId(2)).with_bag(Bag::new().insert(pear())));
    community.give_fruit(MemberId(1), grapes());
    community.take_fruit(MemberId(2), pear());
    community.set_member_luck(MemberId(2), 77);
    community.give_fruit(MemberId(9), grapes());
    assert_eq!(community.member(MemberId(1)).unwrap().bag, Bag::new().insert(grapes()));
    assert!(community.member(MemberId(2)).unwrap().bag.is_empty());
    assert_eq!(community.member(MemberId(2)).unwrap().luck_raw(), 77);
    assert_eq!(community.member(MemberId(1)).unwrap().luck_raw(), 0);
    assert_eq!(community.member_count(), 2);
}
