use fruit_domain::bag::Bag;
use fruit_domain::commands::{plan_gift_record, CommandRecord};
use fruit_domain::community::Community;
use fruit_domain::event_log::{Effect, Event, EventPayload, Record, StateMutation};
use fruit_domain::fruit::{grapes, mango, melon, olive, pear};
use fruit_domain::granting::grant_mutations;
use fruit_domain::ids::{MemberId, SequenceId};
use fruit_domain::keys::{sk_community, sk_effect, sk_event};
use fruit_domain::luck_adjustments::{compute, qp_penalty};
use fruit_domain::member::Member;
use fruit_domain::text::parse_u64;

fn words(s: &str) -> Vec<String> {
    s.split_whitespace().map(|w| w.to_string()).collect()
}

fn alice_and_bob() -> Community {
    let mut c = Community::new();
    c.add_member(Member::new("Alice").with_id(MemberId(1)).with_bag(Bag::new().insert(grapes())));
    c.add_member(Member::new("Bob").with_id(MemberId(2)).with_bag(Bag::new().insert(mango()).insert(mango())));
    c
}

fn gift(c: &Community, id: u64, from: u128, to: u128, moved: bool) -> Record {
    let (s, r) = (MemberId(from), MemberId(to));
    let mutations = if moved {
        vec![
            StateMutation::RemoveFruitFromMember { member_id: s, fruit: grapes() },
            StateMutation::AddFruitToMember { member_id: r, fruit: grapes() },
        ]
    } else {
        vec![]
    };
    Record {
        event: Event {
            id: SequenceId::new(id),
            community_id: c.id,
            payload: EventPayload::Gift { sender_id: s, recipient_id: r, fruit: grapes(), message: None },
        },
        effect: Some(Effect { id: SequenceId::new(id), community_id: c.id, mutations }),
    }
}

#[test]
fn default_bag_is_the_new_bag() {
    assert!(Bag::default() == Bag::new());
    assert!(Bag::default().is_empty());
}

#[test]
fn bag_counts_add_up_to_its_total() {
    let b = Bag::new().insert(grapes()).insert(olive()).insert(olive());
    let listed: usize = b.iter().iter().map(|(_, n)| *n).sum();
    assert_eq!(listed, 3);
    assert_eq!(b.total(), 3);
}

#[test]
fn sort_keys_sort_in_sequence_order() {
    assert_eq!(sk_event(SequenceId::new(1)), "EVENT#00000000000000000001");
    assert!(sk_event(SequenceId::new(9)) < sk_event(SequenceId::new(10)));
    assert!(sk_effect(SequenceId::new(99)) < sk_effect(SequenceId::new(100)));
    assert!(sk_community(SequenceId::new(0)) < sk_community(SequenceId::new(u64::MAX)));
    assert!(sk_event(SequenceId::new(u64::MAX - 1)) < sk_event(SequenceId::new(u64::MAX)));
}

#[test]
fn one_gift_bonus_per_sender_and_noops_ignored() {
    let c = alice_and_bob();
    let rs = vec![gift(&c, 1, 1, 2, true), gift(&c, 2, 1, 2, false), gift(&c, 3, 1, 2, true)];
    let only_effective = vec![gift(&c, 1, 1, 2, true), gift(&c, 3, 1, 2, true)];
    let all = compute(&c, &rs, &[]);
    assert_eq!(all, compute(&c, &only_effective, &[]));
    let bonuses: Vec<&StateMutation> =
        all.iter().filter(|m| matches!(m, StateMutation::GiftLuckBonus { .. })).collect();
    assert_eq!(bonuses, vec![&StateMutation::GiftLuckBonus { member_id: MemberId(1), delta: 20 }]);
}

#[test]
fn quid_pro_quo_penalty_is_within_bounds() {
    let c = alice_and_bob();
    let ab = gift(&c, 1, 1, 2, true);
    let mut ba = gift(&c, 2, 2, 1, true);
    // Grapes one way and a melon the other: close in value but not equal.
    ba.event.payload = EventPayload::Gift { sender_id: MemberId(2), recipient_id: MemberId(1), fruit: melon(), message: None };
    let result = compute(&c, &[], &[ab.clone(), ba.clone()]);
    assert_eq!(result, vec![StateMutation::QuidProQuoPenalty { delta: -64 }]);
    assert_eq!(compute(&c, &[], &[ba, ab]), result);
    for m in &result {
        match m {
            StateMutation::QuidProQuoPenalty { delta } => assert!((-64..=-1).contains(delta)),
            other => panic!("unexpected mutation {other:?}"),
        }
    }
}

#[test]
fn each_member_receives_the_granted_count() {
    let c = alice_and_bob();
    let draws = vec![vec![grapes(), mango(), pear()], vec![olive(), olive(), grapes()]];
    let ms = grant_mutations(&c, &draws);
    assert_eq!(ms.len(), 3 * 2);
    for id in [MemberId(1), MemberId(2)] {
        let n = ms
            .iter()
            .filter(|m| matches!(m, StateMutation::AddFruitToMember { member_id, .. } if *member_id == id))
            .count();
        assert_eq!(n, 3);
    }
}

#[test]
fn gift_record_keeps_an_empty_effect() {
    let c = alice_and_bob();
    let CommandRecord { payload, mutations } = plan_gift_record(&c, &words("Alice 🥭 Bob")).unwrap();
    assert_eq!(
        payload,
        EventPayload::Gift { sender_id: MemberId(1), recipient_id: MemberId(2), fruit: mango(), message: None }
    );
    assert!(mutations.is_empty());
    let CommandRecord { mutations, .. } = plan_gift_record(&c, &words("Alice 🍇 Bob")).unwrap();
    assert_eq!(
        mutations,
        vec![
            StateMutation::RemoveFruitFromMember { member_id: MemberId(1), fruit: grapes() },
            StateMutation::AddFruitToMember { member_id: MemberId(2), fruit: grapes() },
        ]
    );
    assert_eq!(plan_gift_record(&c, &words("Alice x Bob")).err().unwrap(), "unknown fruit emoji 'x'");
}

#[test]
fn sequence_numbers_are_read_as_u64() {
    assert_eq!(parse_u64("42"), Some(42));
    assert_eq!(parse_u64("+7"), Some(7));
    assert_eq!(parse_u64("18446744073709551615"), Some(u64::MAX));
    assert_eq!(parse_u64("18446744073709551616"), None);
    assert_eq!(parse_u64(""), None);
    assert_eq!(parse_u64("+"), None);
    assert_eq!(parse_u64("-1"), None);
    assert_eq!(parse_u64("1.5"), None);
    for s in ["0", "007", "+12", "12a", " 1", "99999999999999999999"] {
        assert_eq!(parse_u64(s), s.parse::<u64>().ok(), "{s}");
    }
}

#[test]
fn new_identifiers_are_version_4_uuids() {
    for _ in 0..20 {
        let m = MemberId::new();
        assert_eq!((m.0 >> 76) & 0xf, 4);
        assert_eq!((m.0 >> 62) & 3, 2);
        let c = Community::new();
        assert_eq!((c.id.0 >> 76) & 0xf, 4);
        assert_eq!((c.id.0 >> 62) & 3, 2);
    }
}

#[test]
fn qp_penalty_alone_matches_compute() {
    let c = alice_and_bob();
    let ab = gift(&c, 1, 1, 2, true);
    let mut ba = gift(&c, 2, 2, 1, true);
    ba.event.payload = EventPayload::Gift { sender_id: MemberId(2), recipient_id: MemberId(1), fruit: melon(), message: None };
    assert_eq!(qp_penalty(&[ab.clone(), ba.clone()]), Some(StateMutation::QuidProQuoPenalty { delta: -64 }));
    assert_eq!(qp_penalty(&[ab]), None);
}

#[test]
fn each_sender_bonus_is_ten_times_its_gifts() {
    let c = alice_and_bob();
    // Alice sends grapes twice, Bob sends a melon once.
    let mut b_gift = gift(&c, 3, 2, 1, true);
    b_gift.event.payload = EventPayload::Gift { sender_id: MemberId(2), recipient_id: MemberId(1), fruit: melon(), message: None };
    let rs = vec![gift(&c, 1, 1, 2, true), gift(&c, 2, 1, 2, true), b_gift];
    let result = compute(&c, &rs, &[]);
    // Grapes are worth 1.0 and a melon 287/255: round(10 × 2.0) = 20, round(10 × 1.1255) = 11.
    assert!(result.contains(&StateMutation::GiftLuckBonus { member_id: MemberId(1), delta: 20 }));
    assert!(result.contains(&StateMutation::GiftLuckBonus { member_id: MemberId(2), delta: 11 }));
}
