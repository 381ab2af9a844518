use fruit_domain::community::Community;
use fruit_domain::error::{Error, ErrorCategory, Status, StorageFailure, StorageLayerError};
use fruit_domain::event_log::{Effect, Event, EventPayload, Record, StateMutation};
use fruit_domain::fruit::{grapes, mango};
use fruit_domain::ids::{CommunityId, MemberId, SequenceId};
use fruit_domain::member::Member;
use fruit_domain::providence::{AfterLatestGrants, AfterOrphanCheck, GrantAppend, GrantRequest, SnapshotLoad};

fn failure() -> StorageFailure {
    StorageFailure { category: ErrorCategory::Busy, status: Status::Temporary }
}

/// Scripted answers of the ports, and what the grant asked of them.
struct Ports {
    grants: Result<Vec<Event>, StorageFailure>,
    latest_effect: Result<Option<Effect>, StorageFailure>,
    append_event: Result<u64, StorageFailure>,
    snapshot: Result<Option<Community>, StorageFailure>,
    between: Result<Vec<Record>, StorageFailure>,
    gifts: Result<Vec<Record>, StorageFailure>,
    append_effect: Result<(), StorageFailure>,
    appended_events: Vec<EventPayload>,
    snapshot_version: Option<SequenceId>,
    between_range: Option<(SequenceId, SequenceId)>,
    granted_to: Option<Community>,
    stored_effect: Option<(SequenceId, Vec<StateMutation>)>,
}

impl Ports {
    fn ok() -> Ports {
        Ports {
            grants: Ok(vec![]),
            latest_effect: Ok(None),
            append_event: Ok(1),
            snapshot: Ok(None),
            between: Ok(vec![]),
            gifts: Ok(vec![]),
            append_effect: Ok(()),
            appended_events: vec![],
            snapshot_version: None,
            between_range: None,
            granted_to: None,
            stored_effect: None,
        }
    }
}

/// The granter used here gives every member one grape per fruit granted.
fn grant_grapes(c: &Community, count: usize) -> Vec<StateMutation> {
    let mut out = vec![];
    for m in c.members() {
        for _ in 0..count {
            out.push(StateMutation::AddFruitToMember { member_id: m.id, fruit: grapes() });
        }
    }
    out
}

fn append(ports: &mut Ports, a: GrantAppend) -> Result<SnapshotLoad, Error> {
    let payload = a.payload();
    let id = a.community_id();
    ports.appended_events.push(payload.clone());
    let ev = ports.append_event.clone().map(|n| Event { id: SequenceId::new(n), community_id: id, payload });
    a.on_appended(ev)
}

fn run(community: Community, count: usize, ports: &mut Ports) -> Result<Vec<StateMutation>, Error> {
    let request = GrantRequest::new(community, count);
    let snapshot = match request.on_latest_grants(ports.grants.clone()) {
        AfterLatestGrants::Failed(e) => return Err(e),
        AfterLatestGrants::Append(a) => append(ports, a)?,
        AfterLatestGrants::CheckOrphan(o) => match o.on_effect(ports.latest_effect.clone()) {
            AfterOrphanCheck::Failed(e) => return Err(e),
            AfterOrphanCheck::Resume(s) => s,
            AfterOrphanCheck::Append(a) => append(ports, a)?,
        },
    };
    ports.snapshot_version = Some(snapshot.version());
    let records = snapshot.on_snapshot(ports.snapshot.clone())?;
    ports.between_range = Some((records.after(), records.before()));
    let gifts = records.on_records(ports.between.clone())?;
    let granting = gifts.on_gifts(ports.gifts.clone())?;
    ports.granted_to = Some(granting.adjusted().clone());
    let fruit = grant_grapes(granting.adjusted(), granting.count());
    let effect = granting.on_granted(fruit);
    ports.stored_effect = Some((effect.event_id(), effect.mutations()));
    let stored = ports.append_effect.clone().map(|_| Effect {
        id: effect.event_id(),
        community_id: effect.community_id(),
        mutations: effect.mutations(),
    });
    effect.on_appended(stored)
}

fn grant_event(id: u64, community_id: CommunityId) -> Event {
    Event { id: SequenceId::new(id), community_id, payload: EventPayload::Grant { count: 1 } }
}

fn gift_record(id: u64, community_id: CommunityId, from: MemberId, to: MemberId) -> Record {
    Record {
        event: Event {
            id: SequenceId::new(id),
            community_id,
            payload: EventPayload::Gift { sender_id: from, recipient_id: to, fruit: grapes(), message: None },
        },
        effect: Some(Effect {
            id: SequenceId::new(id),
            community_id,
            mutations: vec![
                StateMutation::RemoveFruitFromMember { member_id: from, fruit: grapes() },
                StateMutation::AddFruitToMember { member_id: to, fruit: grapes() },
            ],
        }),
    }
}

fn two_members() -> (Community, MemberId, MemberId) {
    let mut c = Community::new();
    let a = Member::new("Alice");
    let b = Member::new("Bob");
    let (ai, bi) = (a.id, b.id);
    c.add_member(a);
    c.add_member(b);
    (c, ai, bi)
}

#[test]
fn no_prior_history_mutations_equal_granter_output() {
    let (community, _, _) = two_members();
    let expected = grant_grapes(&community, 2);
    let mut ports = Ports::ok();
    let result = run(community, 2, &mut ports).unwrap();
    assert_eq!(result, expected);
    assert_eq!(ports.appended_events, vec![EventPayload::Grant { count: 2 }]);
    assert_eq!(ports.snapshot_version, Some(SequenceId::new(0)));
    assert_eq!(ports.between_range, Some((SequenceId::new(0), SequenceId::new(1))));
}

#[test]
fn gift_luck_bonus_applied_before_granting() {
    let (community, alice, bob) = two_members();
    let id = community.id;
    let mut ports = Ports::ok();
    ports.between = Ok(vec![gift_record(1, id, alice, bob)]);
    ports.append_event = Ok(2);
    let result = run(community, 1, &mut ports).unwrap();
    // Bob held nothing at the last grant, so the one-grape gift is also ostentatious.
    assert_eq!(result[0], StateMutation::GiftLuckBonus { member_id: alice, delta: 10 });
    assert_eq!(result[1], StateMutation::OstentatiousGiftPenalty { member_id: alice, delta: -5 });
    let adjusted = ports.granted_to.unwrap();
    assert_eq!(adjusted.member(alice).unwrap().luck_raw(), 5);
    assert_eq!(result.len(), 2 + 2);
}

#[test]
fn event_log_error_propagates() {
    let (community, _, _) = two_members();
    let mut ports = Ports::ok();
    ports.grants = Err(failure());
    let result = run(community, 1, &mut ports);
    assert_eq!(
        result,
        Err(Error::StorageLayerError(StorageLayerError {
            message: "failed to read grant events to check for in-progress grant".to_string(),
            category: ErrorCategory::Busy,
            status: Status::Temporary,
        }))
    );
    assert!(ports.appended_events.is_empty());
}

#[test]
fn orphaned_grant_is_completed_without_appending_new_event() {
    let (community, _, _) = two_members();
    let id = community.id;
    let mut ports = Ports::ok();
    ports.grants = Ok(vec![grant_event(9, id), grant_event(4, id)]);
    ports.latest_effect = Ok(None);
    let result = run(community.clone(), 1, &mut ports).unwrap();
    assert!(ports.appended_events.is_empty());
    assert_eq!(ports.snapshot_version, Some(SequenceId::new(4)));
    assert_eq!(ports.between_range, Some((SequenceId::new(4), SequenceId::new(9))));
    assert_eq!(ports.stored_effect.unwrap().0, SequenceId::new(9));
    assert_eq!(result, grant_grapes(&community, 1));
}

#[test]
fn completed_latest_grant_starts_a_new_one_after_it() {
    let (community, _, _) = two_members();
    let id = community.id;
    let mut ports = Ports::ok();
    ports.grants = Ok(vec![grant_event(9, id), grant_event(4, id)]);
    ports.latest_effect = Ok(Some(Effect { id: SequenceId::new(9), community_id: id, mutations: vec![] }));
    ports.append_event = Ok(12);
    run(community, 1, &mut ports).unwrap();
    assert_eq!(ports.appended_events.len(), 1);
    assert_eq!(ports.snapshot_version, Some(SequenceId::new(9)));
    assert_eq!(ports.between_range, Some((SequenceId::new(9), SequenceId::new(12))));
}

#[test]
fn get_effect_for_event_error_propagates() {
    let (community, _, _) = two_members();
    let id = community.id;
    let mut ports = Ports::ok();
    ports.grants = Ok(vec![grant_event(3, id)]);
    ports.latest_effect = Err(failure());
    match run(community, 1, &mut ports) {
        Err(Error::StorageLayerError(e)) => assert_eq!(
            e.message,
            "failed to read effect while testing whether latest grant is in orphaned"
        ),
        other => panic!("unexpected {other:?}"),
    }
}

#[test]
fn append_event_error_propagates() {
    let (community, _, _) = two_members();
    let mut ports = Ports::ok();
    ports.append_event = Err(failure());
    match run(community, 1, &mut ports) {
        Err(Error::StorageLayerError(e)) => assert_eq!(e.message, "failed to create grant event"),
        other => panic!("unexpected {other:?}"),
    }
}

#[test]
fn community_provider_error_propagates() {
    let (community, _, _) = two_members();
    let mut ports = Ports::ok();
    ports.snapshot = Err(failure());
    assert_eq!(
        run(community, 1, &mut ports),
        Err(Error::GrantInterrupted("failed to read latest community while processing grant".to_string()))
    );
}

#[test]
fn get_records_between_error_propagates() {
    let (community, _, _) = two_members();
    let mut ports = Ports::ok();
    ports.between = Err(failure());
    assert_eq!(
        run(community, 1, &mut ports),
        Err(Error::GrantInterrupted("failed to read records between grants".to_string()))
    );
}

#[test]
fn get_latest_gift_records_error_propagates() {
    let (community, _, _) = two_members();
    let mut ports = Ports::ok();
    ports.gifts = Err(failure());
    assert_eq!(
        run(community, 1, &mut ports),
        Err(Error::GrantInterrupted("failed to read gift history while processing grant".to_string()))
    );
}

#[test]
fn append_effect_error_propagates() {
    let (community, _, _) = two_members();
    let mut ports = Ports::ok();
    ports.append_effect = Err(failure());
    assert_eq!(
        run(community, 1, &mut ports),
        Err(Error::GrantInterrupted("failed to create grant effect".to_string()))
    );
}

#[test]
fn snapshot_at_last_grant_decides_ostentation() {
    // The recipient held five grapes at the last grant: a mango gift is not ostentatious.
    let (community, alice, bob) = two_members();
    let id = community.id;
    let mut snapshot = community.clone();
    for _ in 0..5 {
        snapshot.give_fruit(bob, grapes());
    }
    let mut ports = Ports::ok();
    ports.snapshot = Ok(Some(snapshot));
    let mut gift = gift_record(1, id, alice, bob);
    gift.event.payload = EventPayload::Gift { sender_id: alice, recipient_id: bob, fruit: mango(), message: None };
    gift.effect = Some(Effect {
        id: SequenceId::new(1),
        community_id: id,
        mutations: vec![
            StateMutation::RemoveFruitFromMember { member_id: alice, fruit: mango() },
            StateMutation::AddFruitToMember { member_id: bob, fruit: mango() },
        ],
    });
    ports.between = Ok(vec![gift]);
    ports.append_event = Ok(2);
    let result = run(community, 0, &mut ports).unwrap();
    assert_eq!(result, vec![StateMutation::GiftLuckBonus { member_id: alice, delta: 100 }]);
}
