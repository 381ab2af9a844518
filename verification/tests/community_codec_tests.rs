use fruit_domain::bag::Bag;
use fruit_domain::community::Community;
use fruit_domain::community_codec::{decode_community, encode_community, CommunityItem};
use fruit_domain::fruit::{grapes, melon};
use fruit_domain::ids::{CommunityId, MemberId, SequenceId};
use fruit_domain::keys::{sk_community, sk_community_range};
use fruit_domain::member::Member;
use fruit_domain::storage_error::Error;

fn community_id() -> CommunityId {
    CommunityId::from_uuid_bytes(&[1u8; 16])
}

fn member_id() -> MemberId {
    MemberId::from_uuid_bytes(&[2u8; 16])
}

fn member_id_2() -> MemberId {
    MemberId::from_uuid_bytes(&[3u8; 16])
}

fn seq(n: u64) -> SequenceId {
    SequenceId::new(n)
}

fn make_community() -> Community {
    let bag1 = Bag::new().insert(grapes()).insert(grapes()).insert(melon());
    let bag2 = Bag::new().insert(melon());
    let m1 = Member::new("Alice").with_id(member_id()).with_bag(bag1);
    let m2 = Member::new("Bob").with_id(member_id_2()).with_bag(bag2);
    let mut c = Community::new().with_id(community_id()).with_luck(42).with_version(seq(7));
    c.add_member(m1);
    c.add_member(m2);
    c
}

#[test]
fn community_round_trips_with_members_and_bags() {
    let community = make_community();
    let encoded = encode_community(&community);
    let decoded = decode_community(&encoded).unwrap();
    assert_eq!(decoded, community);
}

#[test]
fn community_round_trips_empty_community() {
    let community = Community::new().with_id(community_id()).with_luck(0).with_version(seq(0));
    let encoded = encode_community(&community);
    let decoded = decode_community(&encoded).unwrap();
    assert_eq!(decoded, community);
}

#[test]
fn sk_community_formats_zero_padded_20_digits() {
    let sk = sk_community(seq(1));
    assert_eq!(sk, "COMMUNITY#00000000000000000001");
}

#[test]
fn sk_community_formats_large_value() {
    let sk = sk_community(SequenceId::new(u64::MAX));
    assert_eq!(sk, format!("COMMUNITY#{:020}", u64::MAX));
}

#[test]
fn sk_community_range_lower_starts_at_zero() {
    let (lower, _) = sk_community_range();
    assert_eq!(lower, "COMMUNITY#00000000000000000000");
}

#[test]
fn sk_community_range_upper_is_u64_max() {
    let (_, upper) = sk_community_range();
    assert_eq!(upper, format!("COMMUNITY#{:020}", u64::MAX));
}

#[test]
fn decode_community_bad_pk_returns_codec_error() {
    let item = CommunityItem { pk: vec![0u8; 5], sk: sk_community(seq(1)), luck: 0, version: 1, members: vec![] };
    let result = decode_community(&item);
    assert!(result.is_err());
    assert_eq!(
        result,
        Err(Error::Codec { message: "invalid community_id: expected 16 bytes, got 5".to_string() })
    );
}

#[test]
fn encoded_community_keys_members_by_uuid_text() {
    let item = encode_community(&make_community());
    assert_eq!(item.pk, vec![1u8; 16]);
    assert_eq!(item.sk, "COMMUNITY#00000000000000000007");
    assert_eq!(item.luck, 42);
    assert_eq!(item.version, 7);
    let keys: Vec<&str> = item.members.iter().map(|(k, _)| k.as_str()).collect();
    assert_eq!(
        keys,
        vec!["02020202-0202-0202-0202-020202020202", "03030303-0303-0303-0303-030303030303"]
    );
}

#[test]
fn decode_community_later_member_with_same_id_wins() {
    let mut item = encode_community(&make_community());
    let mut replacement = encode_community(&make_community()).members.remove(0);
    replacement.1.display_name = "Alicia".to_string();
    item.members.push(replacement);
    let decoded = decode_community(&item).unwrap();
    assert_eq!(decoded.member(member_id()).unwrap().display_name, "Alicia");
    assert_eq!(decoded.member_count(), 2);
}

#[test]
fn decode_community_reports_unknown_fruit_of_a_member() {
    let mut item = encode_community(&make_community());
    item.members[1].1.bag.push(("Dragonfruit".to_string(), 1));
    assert_eq!(
        decode_community(&item),
        Err(Error::Codec { message: "unknown fruit 'Dragonfruit'".to_string() })
    );
}
