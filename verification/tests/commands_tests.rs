use fruit_domain::commands::{
    chars_of, join_words, parse_fruit_emojis, plan_add, plan_burn, plan_gift, plan_luck_target, plan_remove,
};
use fruit_domain::community::Community;
use fruit_domain::event_log::EventPayload;
use fruit_domain::fruit::{grapes, hot_pepper, melon, strawberry};
use fruit_domain::ids::MemberId;
use fruit_domain::member::Member;

fn words(s: &str) -> Vec<String> {
    s.split_whitespace().map(|w| w.to_string()).collect()
}

fn community() -> Community {
    let mut c = Community::new();
    c.add_member(Member::new("Alice").with_id(MemberId(1)));
    c.add_member(Member::new("Bob Jones").with_id(MemberId(2)));
    c
}

#[test]
fn chars_of_keeps_every_character() {
    assert_eq!(chars_of("a🍇b"), vec!['a', '🍇', 'b']);
    assert_eq!(chars_of(""), Vec::<char>::new());
}

#[test]
fn join_words_joins_with_single_spaces() {
    let w = words("gift Alice 🍇 Bob Jones");
    assert_eq!(join_words(&w, 3, 5), "Bob Jones");
    assert_eq!(join_words(&w, 0, 1), "gift");
    assert_eq!(join_words(&w, 2, 2), "");
}

#[test]
fn emoji_runs_are_read_greedily() {
    assert_eq!(parse_fruit_emojis("🍇🍈🍇"), Some(vec![grapes(), melon(), grapes()]));
    assert_eq!(parse_fruit_emojis("🍓"), Some(vec![strawberry()]));
    assert_eq!(parse_fruit_emojis(""), Some(vec![]));
    assert_eq!(parse_fruit_emojis("🍇x"), None);
    assert_eq!(parse_fruit_emojis("🌶"), Some(vec![hot_pepper()]));
    // A trailing variation selector is no fruit.
    assert_eq!(parse_fruit_emojis("🌶\u{fe0f}"), None);
}

#[test]
fn gift_command_reads_sender_fruit_and_recipient() {
    let c = community();
    let g = plan_gift(&c, &words("Alice 🍇 Bob Jones")).unwrap();
    assert_eq!((g.sender_id, g.fruit, g.recipient_id), (MemberId(1), grapes(), MemberId(2)));
    assert_eq!(
        g.payload(),
        EventPayload::Gift { sender_id: MemberId(1), recipient_id: MemberId(2), fruit: grapes(), message: None }
    );
}

#[test]
fn gift_command_refusals() {
    let c = community();
    assert_eq!(plan_gift(&c, &words("Alice 🍇")).err().unwrap(), "usage: gift <sender> <emoji> <recipient>");
    assert_eq!(plan_gift(&c, &words("Alice x Bob")).err().unwrap(), "unknown fruit emoji 'x'");
    assert_eq!(plan_gift(&c, &words("Carol 🍇 Bob Jones")).err().unwrap(), "no member named 'Carol'");
    assert_eq!(plan_gift(&c, &words("Alice 🍇 Bob")).err().unwrap(), "no member named 'Bob'");
}

#[test]
fn burn_command_reads_member_and_fruits() {
    let c = community();
    let (id, fruits) = plan_burn(&c, &words("Alice 🍇🍇 🍓")).unwrap();
    assert_eq!(id, MemberId(1));
    assert_eq!(fruits, vec![grapes(), grapes(), strawberry()]);
    assert_eq!(plan_burn(&c, &words("Alice")).err().unwrap(), "usage: burn <name> <emoji> [<emoji>...]");
    assert_eq!(plan_burn(&c, &words("Alice 🍇 ?")).err().unwrap(), "unknown fruit emoji '?'");
    assert_eq!(plan_burn(&c, &words("Zed 🍇")).err().unwrap(), "no member named 'Zed'");
}

#[test]
fn remove_add_and_luck_commands() {
    let c = community();
    assert_eq!(plan_remove(&c, &words("Bob Jones")), Ok(MemberId(2)));
    assert_eq!(plan_remove(&c, &words("")).err().unwrap(), "usage: remove <name>");
    assert_eq!(plan_remove(&c, &words("Bob")).err().unwrap(), "no member named 'Bob'");
    assert_eq!(plan_add(&words("New  Person")), Ok("New Person".to_string()));
    assert_eq!(plan_add(&words("")).err().unwrap(), "usage: add <name>");
    assert_eq!(plan_luck_target(&c, &words("0.5")), Ok(None));
    assert_eq!(plan_luck_target(&c, &words("Bob Jones 0.5")), Ok(Some(MemberId(2))));
    assert_eq!(plan_luck_target(&c, &words("Eve 0.5")).err().unwrap(), "no member named 'Eve'");
}
