use fruit_domain::community::Community;
use fruit_domain::event_log::{Effect, StateMutation};
use fruit_domain::fruit::grapes;
use fruit_domain::gifter::compute_gift;
use fruit_domain::ids::{MemberId, SequenceId};
use fruit_domain::member::Member;

fn community_with_members() -> (Community, MemberId, MemberId) {
    let mut community = Community::new();
    let alice = Member::new("Alice");
    let bob = Member::new("Bob");
    let alice_id = alice.id;
    let bob_id = bob.id;
    community.add_member(alice);
    community.add_member(bob);
    (community, alice_id, bob_id)
}

#[test]
fn valid_gift_returns_remove_then_add() {
    let (mut community, alice_id, bob_id) = community_with_members();
    community.give_fruit(alice_id, grapes());
    let mutations = compute_gift(&community, alice_id, bob_id, grapes());
    assert_eq!(
        mutations,
        vec![
            StateMutation::RemoveFruitFromMember { member_id: alice_id, fruit: grapes() },
            StateMutation::AddFruitToMember { member_id: bob_id, fruit: grapes() },
        ]
    );
}

#[test]
fn sender_does_not_hold_fruit_returns_noop() {
    let (community, alice_id, bob_id) = community_with_members();
    let mutations = compute_gift(&community, alice_id, bob_id, grapes());
    assert_eq!(mutations, vec![]);
}

#[test]
fn unknown_sender_returns_noop() {
    let (community, _, bob_id) = community_with_members();
    let unknown_id = Member::new("Ghost").id;
    let mutations = compute_gift(&community, unknown_id, bob_id, grapes());
    assert_eq!(mutations, vec![]);
}

#[test]
fn applying_a_gift_moves_one_fruit() {
    let (mut community, alice_id, bob_id) = community_with_members();
    community.give_fruit(alice_id, grapes());
    community.give_fruit(alice_id, grapes());
    let mutations = compute_gift(&community, alice_id, bob_id, grapes());
    Effect { id: SequenceId::new(1), community_id: community.id, mutations }.apply(&mut community);
    assert_eq!(community.member(alice_id).unwrap().bag.count(grapes()), 1);
    assert_eq!(community.member(bob_id).unwrap().bag.count(grapes()), 1);
}
