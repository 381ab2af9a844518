use std::collections::HashMap;

use fruit_domain::burner::compute_burn;
use fruit_domain::community::Community;
use fruit_domain::event_log::StateMutation;
use fruit_domain::fruit::{grapes, strawberry, Fruit};
use fruit_domain::ids::MemberId;
use fruit_domain::member::Member;

fn community_with_member() -> (Community, MemberId) {
    let mut community = Community::new();
    let alice = Member::new("Alice");
    let id = alice.id;
    community.add_member(alice);
    (community, id)
}

fn collect_removes(mutations: Vec<StateMutation>) -> HashMap<Fruit, usize> {
    let mut removes: HashMap<Fruit, usize> = HashMap::new();
    for m in mutations {
        match m {
            StateMutation::RemoveFruitFromMember { fruit, .. } => {
                *removes.entry(fruit).or_insert(0) += 1;
            }
            _ => panic!("unexpected mutation"),
        }
    }
    removes
}

#[test]
fn burn_single_fruit_returns_remove() {
    let (mut community, member_id) = community_with_member();
    community.give_fruit(member_id, grapes());
    let mutations = compute_burn(&community, member_id, &[grapes()]);
    assert_eq!(mutations, vec![StateMutation::RemoveFruitFromMember { member_id, fruit: grapes() }]);
}

#[test]
fn burn_multiple_of_same_type() {
    let (mut community, member_id) = community_with_member();
    community.give_fruit(member_id, grapes());
    community.give_fruit(member_id, grapes());
    community.give_fruit(member_id, grapes());
    let mutations = compute_burn(&community, member_id, &[grapes(), grapes(), grapes()]);
    assert_eq!(collect_removes(mutations), HashMap::from([(grapes(), 3)]));
}

#[test]
fn burn_mixed_fruit_types() {
    let (mut community, member_id) = community_with_member();
    community.give_fruit(member_id, grapes());
    community.give_fruit(member_id, strawberry());
    let mutations = compute_burn(&community, member_id, &[grapes(), strawberry()]);
    assert_eq!(collect_removes(mutations), HashMap::from([(grapes(), 1), (strawberry(), 1)]));
}

#[test]
fn insufficient_of_one_type_burns_what_is_held() {
    let (mut community, member_id) = community_with_member();
    community.give_fruit(member_id, grapes());
    community.give_fruit(member_id, strawberry());
    community.give_fruit(member_id, strawberry());
    let mutations = compute_burn(
        &community,
        member_id,
        &[grapes(), grapes(), grapes(), strawberry(), strawberry()],
    );
    assert_eq!(collect_removes(mutations), HashMap::from([(grapes(), 1), (strawberry(), 2)]));
}

#[test]
fn empty_fruits_returns_noop() {
    let (community, member_id) = community_with_member();
    assert_eq!(compute_burn(&community, member_id, &[]), vec![]);
}

#[test]
fn member_holds_none_of_requested_returns_noop() {
    let (community, member_id) = community_with_member();
    assert_eq!(compute_burn(&community, member_id, &[grapes()]), vec![]);
}

#[test]
fn unknown_member_returns_noop() {
    let (community, _) = community_with_member();
    let unknown_id = Member::new("Ghost").id;
    assert_eq!(compute_burn(&community, unknown_id, &[grapes()]), vec![]);
}
