use fruit_domain::bag::Bag;
use fruit_domain::community::Community;
use fruit_domain::error::{Error, RetryableStorageLayerError};
use fruit_domain::event_log::{Effect, Event, EventPayload, Record, StateMutation};
use fruit_domain::fruit::grapes;
use fruit_domain::ids::{CommunityId, MemberId, SequenceId};
use fruit_domain::luck_adjuster::{LuckAdjuster, LATEST_GRANT_LIMIT};
use fruit_domain::member::Member;

/// Scripted answers of the ports, and what the adjustment asked of them.
struct Ports {
    grants: Result<Vec<Event>, Error>,
    snapshot: Result<Option<Community>, Error>,
    between: Result<Vec<Record>, Error>,
    gifts: Vec<Record>,
    grant_limit_seen: Option<usize>,
    snapshot_version_seen: Option<SequenceId>,
    between_range_seen: Option<(SequenceId, SequenceId)>,
    gift_limit_seen: Option<usize>,
}

impl Ports {
    fn empty() -> Ports {
        Ports {
            grants: Ok(vec![]),
            snapshot: Ok(None),
            between: Ok(vec![]),
            gifts: vec![],
            grant_limit_seen: None,
            snapshot_version_seen: None,
            between_range_seen: None,
            gift_limit_seen: None,
        }
    }
}

fn run(ports: &mut Ports, community: &Community, before: SequenceId) -> Result<Vec<StateMutation>, Error> {
    let adjuster = LuckAdjuster::new();
    let lookup = adjuster.compute(community, before);
    ports.grant_limit_seen = Some(lookup.limit());
    let snapshot = lookup.on_latest_grants(std::mem::replace(&mut ports.grants, Ok(vec![])))?;
    ports.snapshot_version_seen = Some(snapshot.version());
    let records = snapshot.on_snapshot(std::mem::replace(&mut ports.snapshot, Ok(None)))?;
    ports.between_range_seen = Some((records.after(), records.before()));
    let gifts = records.on_records(std::mem::replace(&mut ports.between, Ok(vec![])))?;
    let limit = gifts.limit();
    ports.gift_limit_seen = Some(limit);
    let recent: Vec<Record> = ports.gifts.iter().take(limit).cloned().collect();
    gifts.on_gifts(Ok(recent))
}

fn seq(n: u64) -> SequenceId {
    SequenceId::new(n)
}

fn grant_event(community_id: CommunityId, id: u64) -> Event {
    Event { id: seq(id), community_id, payload: EventPayload::Grant { count: 1 } }
}

fn gift_record(community_id: CommunityId, id: u64, sender_id: MemberId, recipient_id: MemberId, moved: bool) -> Record {
    let mutations = if moved {
        vec![
            StateMutation::RemoveFruitFromMember { member_id: sender_id, fruit: grapes() },
            StateMutation::AddFruitToMember { member_id: recipient_id, fruit: grapes() },
        ]
    } else {
        vec![]
    };
    Record {
        event: Event {
            id: seq(id),
            community_id,
            payload: EventPayload::Gift { sender_id, recipient_id, fruit: grapes(), message: None },
        },
        effect: Some(Effect { id: seq(id), community_id, mutations }),
    }
}

#[test]
fn no_prior_grants_no_gifts_returns_empty() {
    let community = Community::new();
    let mut ports = Ports::empty();
    let result = run(&mut ports, &community, seq(10)).unwrap();
    assert_eq!(result, vec![]);
    assert_eq!(ports.grant_limit_seen, Some(LATEST_GRANT_LIMIT));
    assert_eq!(ports.snapshot_version_seen, Some(seq(0)));
    assert_eq!(ports.between_range_seen, Some((seq(0), seq(10))));
}

#[test]
fn gift_between_grants_produces_bonus() {
    let mut community = Community::new();
    let sender = Member::new("Alice");
    // recipient holds enough fruit to avoid ostentation penalty
    let recipient = Member::new("Bob").with_bag(Bag::new().insert(grapes()).insert(grapes()).insert(grapes()));
    let (sender_id, recipient_id) = (sender.id, recipient.id);
    community.add_member(sender);
    community.add_member(recipient);

    // Grant at seq 1, gift at seq 2, current grant at seq 10
    let gift = gift_record(community.id, 2, sender_id, recipient_id, true);
    let mut ports = Ports::empty();
    ports.grants = Ok(vec![grant_event(community.id, 1)]);
    ports.snapshot = Ok(Some(community));
    ports.between = Ok(vec![gift.clone()]);
    ports.gifts = vec![gift];

    let result = run(&mut ports, &Community::new(), seq(10)).unwrap();

    // GRAPES value=1.0, delta = round(1.0 * 10.0) = 10
    assert_eq!(result, vec![StateMutation::GiftLuckBonus { member_id: sender_id, delta: 10 }]);
    assert_eq!(ports.snapshot_version_seen, Some(seq(1)));
    assert_eq!(ports.between_range_seen, Some((seq(1), seq(10))));
}

#[test]
fn recent_gift_records_capped_at_100() {
    let community = Community::new();
    let mut ports = Ports::empty();
    run(&mut ports, &community, seq(1)).unwrap();
    assert_eq!(ports.gift_limit_seen, Some(100));
}

#[test]
fn noop_gift_between_grants_excluded_from_bonus() {
    let mut community = Community::new();
    let sender = Member::new("Alice");
    let recipient = Member::new("Bob");
    let (sender_id, recipient_id) = (sender.id, recipient.id);
    community.add_member(sender);
    community.add_member(recipient);

    let noop_gift = gift_record(community.id, 2, sender_id, recipient_id, false);
    let mut ports = Ports::empty();
    ports.grants = Ok(vec![grant_event(community.id, 1)]);
    ports.snapshot = Ok(Some(community));
    ports.between = Ok(vec![noop_gift.clone()]);
    ports.gifts = vec![noop_gift];

    let result = run(&mut ports, &Community::new(), seq(10)).unwrap();
    assert_eq!(result, vec![]);
}

#[test]
fn adjuster_passes_a_failed_read_through_unchanged() {
    let community = Community::new();
    let failure = || Error::RetryableStorageLayerError(RetryableStorageLayerError { message: "throttled".to_string() });
    let mut ports = Ports::empty();
    ports.between = Err(failure());
    assert_eq!(run(&mut ports, &community, seq(3)), Err(failure()));
    assert_eq!(ports.gift_limit_seen, None);
}
