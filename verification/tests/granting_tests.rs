use fruit_domain::community::Community;
use fruit_domain::event_log::{Effect, StateMutation};
use fruit_domain::fruit::{grapes, mango, pear};
use fruit_domain::granting::grant_mutations;
use fruit_domain::ids::{MemberId, SequenceId};
use fruit_domain::member::Member;

fn community() -> Community {
    let mut c = Community::new();
    c.add_member(Member::new("B").with_id(MemberId(2)));
    c.add_member(Member::new("A").with_id(MemberId(1)));
    c
}

#[test]
fn grants_fruits_to_each_member_in_identifier_order() {
    let c = community();
    let draws = vec![vec![grapes(), pear()], vec![mango(), grapes()]];
    let m = grant_mutations(&c, &draws);
    assert_eq!(
        m,
        vec![
            StateMutation::AddFruitToMember { member_id: MemberId(1), fruit: grapes() },
            StateMutation::AddFruitToMember { member_id: MemberId(1), fruit: pear() },
            StateMutation::AddFruitToMember { member_id: MemberId(2), fruit: mango() },
            StateMutation::AddFruitToMember { member_id: MemberId(2), fruit: grapes() },
        ]
    );
}

#[test]
fn applying_a_grant_adds_the_drawn_fruits() {
    let mut c = community();
    let draws = vec![vec![grapes(), grapes()], vec![mango()]];
    let mutations = grant_mutations(&c, &draws);
    Effect { id: SequenceId::new(1), community_id: c.id, mutations }.apply(&mut c);
    assert_eq!(c.member(MemberId(1)).unwrap().bag.count(grapes()), 2);
    assert_eq!(c.member(MemberId(1)).unwrap().bag.total(), 2);
    assert_eq!(c.member(MemberId(2)).unwrap().bag.count(mango()), 1);
    assert_eq!(c.member(MemberId(2)).unwrap().bag.total(), 1);
}

#[test]
fn empty_community_gets_no_mutations() {
    let c = Community::new();
    assert_eq!(grant_mutations(&c, &vec![]), vec![]);
}
