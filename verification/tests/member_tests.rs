use fruit_domain::bag::Bag;
use fruit_domain::fruit::{grapes, red_apple};
use fruit_domain::ids::MemberId;
use fruit_domain::member::Member;

#[test]
fn new_member_has_neutral_luck() {
    let member = Member::new("Alice");
    assert_eq!(member, Member::new("Alice").with_id(member.id));
    assert_eq!(member.luck_raw(), 0);
}

#[test]
fn member_can_receive_fruit() {
    let mut member = Member::new("Bob");
    member.receive(grapes());
    assert_eq!(member, Member::new("Bob").with_id(member.id).with_bag(Bag::new().insert(grapes())));
}

#[test]
fn member_can_receive_multiple_fruits() {
    let mut member = Member::new("Bob");
    member.receive(grapes()).receive(grapes()).receive(red_apple());
    assert_eq!(
        member,
        Member::new("Bob")
            .with_id(member.id)
            .with_bag(Bag::new().insert(grapes()).insert(grapes()).insert(red_apple()))
    );
}

#[test]
fn member_id_as_uuid_roundtrips() {
    let id = MemberId::new();
    assert_eq!(id, MemberId::from_uuid_bytes(&id.uuid_bytes()));
}

#[test]
fn with_luck_sets_raw_luck() {
    let member = Member::new("Alice").with_luck(200);
    assert_eq!(member.luck_raw() as f64 / u8::MAX as f64, 200.0 / u8::MAX as f64);
}

#[test]
fn member_uuid_text_is_hyphenated_lowercase_hex() {
    let id = MemberId(0x0123_4567_89ab_cdef_0011_2233_4455_6677);
    let text = id.to_uuid_string();
    assert_eq!(text, "01234567-89ab-cdef-0011-223344556677");
}

#[test]
fn member_uuid_bytes_are_big_endian() {
    let id = MemberId(0x0102_0304_0506_0708_090a_0b0c_0d0e_0f10);
    assert_eq!(id.uuid_bytes(), (1u8..=16).collect::<Vec<u8>>());
}
