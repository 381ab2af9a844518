//! The decisions behind the interactive commands: reading their arguments,
//! finding the members and fruits they name, and saying what is wrong with
//! them.

use vstd::prelude::*;
use vstd::std_specs::iter::IteratorSpec;
use vstd::string::*;

use crate::community::{first_named, Community};
use crate::fruit::{catalog, fruit_by_emoji, fruits, Fruit, FruitModel};
use crate::event_log::{fruit_models, mutation_models, EventPayload, PayloadModel, StateMutation};
use crate::gifter::{compute_gift, gift_models};
use crate::ids::MemberId;

verus! {

broadcast use vstd::string::axiom_spec_iter, vstd::string::next_postcondition;

/// The characters of `s`.
pub fn chars_of(s: &str) -> (v: Vec<char>)
    ensures
        v@ == s@,
{
    let mut it = s.chars();
    let mut v: Vec<char> = Vec::new();
    loop
        invariant
            v@ + it.remaining() == s@,
            it.decrease() is Some,
        decreases it.decrease()->0,
    {
        let ghost before = it.remaining();
        match it.next() {
            Some(c) => {
                v.push(c);
                assert(v@ + it.remaining() =~= s@) by {
                    assert(before =~= seq![c] + it.remaining());
                }
            },
            None => {
                assert(v@ =~= s@);
                return v;
            },
        }
    }
}

/// The words joined with single spaces.
pub open spec fn joined(words: Seq<Seq<char>>) -> Seq<char>
    decreases words.len(),
{
    if words.len() == 0 {
        Seq::empty()
    } else if words.len() == 1 {
        words[0]
    } else {
        joined(words.drop_last()) + seq![' '] + words.last()
    }
}

/// The views of a sequence of strings.
pub open spec fn word_views(words: Seq<String>) -> Seq<Seq<char>> {
    words.map_values(|w: String| w@)
}

/// The words `words[from..to]` joined with single spaces.
pub fn join_words(words: &Vec<String>, from: usize, to: usize) -> (s: String)
    requires
        from <= to <= words@.len(),
    ensures
        s@ == joined(word_views(words@).subrange(from as int, to as int)),
{
    let ghost ws = word_views(words@).subrange(from as int, to as int);
    let mut s = String::new();
    let mut i: usize = from;
    assert(ws.take(0) =~= Seq::<Seq<char>>::empty());
    while i < to
        invariant
            from <= i <= to,
            to <= words@.len(),
            ws == word_views(words@).subrange(from as int, to as int),
            s@ == joined(ws.take(i - from)),
        decreases to - i,
    {
        let k: usize = i - from;
        assert(ws.take(k + 1).drop_last() =~= ws.take(k as int));
        assert(ws.take(k + 1).last() == words@[i as int]@);
        if i > from {
            s.append(" ");
            proof {
                reveal_strlit(" ");
            }
        } else {
            assert(ws.take(1) =~= seq![words@[i as int]@]);
            assert(s@ =~= Seq::<char>::empty());
        }
        s.append(words[i].as_str());
        i = i + 1;
    }
    assert(ws.take(i - from) =~= ws);
    s
}

/// Whether `p` is a prefix of `s`.
pub open spec fn starts_with(s: Seq<char>, p: Seq<char>) -> bool {
    p.len() <= s.len() && s.take(p.len() as int) == p
}

/// Whether catalog fruit `i` has a non-empty emoji that `rest` starts with.
pub open spec fn emoji_matches(rest: Seq<char>, i: int) -> bool {
    0 <= i < catalog().len() && catalog()[i].emoji.len() > 0 && starts_with(rest, catalog()[i].emoji)
}

/// The first catalog fruit whose emoji `rest` starts with.
pub open spec fn first_emoji_match(rest: Seq<char>) -> Option<int> {
    if exists|i: int| emoji_matches(rest, i) {
        Some(choose|i: int| emoji_matches(rest, i) && forall|j: int| 0 <= j < i ==> !emoji_matches(rest, j))
    } else {
        None
    }
}

/// The fruits whose emojis make up `rest`, read greedily from the left and
/// preferring the first catalog fruit that matches; `None` where some part
/// is no fruit's emoji.
pub open spec fn parse_emojis(rest: Seq<char>) -> Option<Seq<FruitModel>>
    decreases rest.len(),
{
    if rest.len() == 0 {
        Some(Seq::empty())
    } else {
        match first_emoji_match(rest) {
            None => None,
            Some(i) => if emoji_matches(rest, i) {
                match parse_emojis(rest.skip(catalog()[i].emoji.len() as int)) {
                    None => None,
                    Some(fs) => Some(seq![catalog()[i]] + fs),
                }
            } else {
                None
            },
        }
    }
}

fn chars_start_with(s: &Vec<char>, at: usize, p: &Vec<char>) -> (r: bool)
    requires
        at <= s@.len(),
    ensures
        r == starts_with(s@.skip(at as int), p@),
{
    let n = s.len();
    if p.len() > n - at {
        return false;
    }
    let mut k: usize = 0;
    while k < p.len()
        invariant
            n == s@.len(),
            at + p@.len() <= s@.len(),
            k <= p@.len(),
            forall|j: int| 0 <= j < k ==> s@[at + j] == p@[j],
        decreases p@.len() - k,
    {
        if s[at + k] != p[k] {
            assert(s@.skip(at as int).take(p@.len() as int)[k as int] != p@[k as int]);
            return false;
        }
        k = k + 1;
    }
    assert(s@.skip(at as int).take(p@.len() as int) =~= p@);
    true
}

fn find_emoji(cs: &Vec<char>, pos: usize, emojis: &Vec<Vec<char>>) -> (r: Option<usize>)
    requires
        pos <= cs@.len(),
        emojis@.len() == catalog().len(),
        forall|j: int| 0 <= j < catalog().len() ==> (#[trigger] emojis@[j])@ == catalog()[j].emoji,
    ensures
        match r {
            Some(i) => i < catalog().len() && emoji_matches(cs@.skip(pos as int), i as int)
                && forall|j: int| 0 <= j < i ==> !emoji_matches(cs@.skip(pos as int), j),
            None => forall|j: int| !emoji_matches(cs@.skip(pos as int), j),
        },
{
    let mut i: usize = 0;
    while i < emojis.len()
        invariant
            emojis@.len() == catalog().len(),
            forall|j: int| 0 <= j < catalog().len() ==> (#[trigger] emojis@[j])@ == catalog()[j].emoji,
            pos <= cs@.len(),
            i <= emojis@.len(),
            forall|j: int| 0 <= j < i ==> !emoji_matches(cs@.skip(pos as int), j),
        decreases emojis@.len() - i,
    {
        let em = &emojis[i];
        assert(em@ == catalog()[i as int].emoji);
        if em.len() > 0 && chars_start_with(cs, pos, em) {
            return Some(i);
        }
        i = i + 1;
    }
    None
}

/// The fruits whose emojis make up `token`, read greedily from the left;
/// `None` where some part of it is no fruit's emoji.
pub fn parse_fruit_emojis(token: &str) -> (r: Option<Vec<Fruit>>)
    ensures
        match r {
            Some(fs) => parse_emojis(token@) == Some(fruit_models(fs@)),
            None => parse_emojis(token@) is None,
        },
{
    let cs = chars_of(token);
    let all = fruits();
    let mut emojis: Vec<Vec<char>> = Vec::new();
    let mut e: usize = 0;
    while e < all.len()
        invariant
            all@.map_values(|f: Fruit| f@) == catalog(),
            e <= all@.len(),
            emojis@.len() == e,
            forall|j: int| 0 <= j < e ==> (#[trigger] emojis@[j])@ == catalog()[j].emoji,
        decreases all@.len() - e,
    {
        assert(all@.map_values(|f: Fruit| f@)[e as int] == all@[e as int]@);
        emojis.push(chars_of(all[e].emoji));
        e = e + 1;
    }
    let mut out: Vec<Fruit> = Vec::new();
    let mut pos: usize = 0;
    proof {
        assert(cs@.skip(0) =~= token@);
        assert(fruit_models(out@) =~= Seq::<FruitModel>::empty());
        if let Some(fs) = parse_emojis(token@) {
            assert(Seq::<FruitModel>::empty() + fs =~= fs);
        }
    }
    while pos < cs.len()
        invariant
            cs@ == token@,
            all@.map_values(|f: Fruit| f@) == catalog(),
            emojis@.len() == catalog().len(),
            forall|j: int| 0 <= j < catalog().len() ==> (#[trigger] emojis@[j])@ == catalog()[j].emoji,
            pos <= cs@.len(),
            parse_emojis(token@) == match parse_emojis(cs@.skip(pos as int)) {
                None => None,
                Some(fs) => Some(fruit_models(out@) + fs),
            },
        decreases cs@.len() - pos,
    {
        let ghost rest = cs@.skip(pos as int);
        let found = find_emoji(&cs, pos, &emojis);
        match found {
            None => {
                proof {
                    assert(first_emoji_match(rest) is None);
                }
                return None;
            },
            Some(i) => {
                let ghost before = out@;
                let n = emojis[i].len();
                proof {
                    assert(emoji_matches(rest, i as int));
                    let c = choose|c: int| emoji_matches(rest, c) && forall|j: int| 0 <= j < c ==> !emoji_matches(rest, j);
                    assert(c == i);
                    assert(rest.skip(n as int) =~= cs@.skip(pos + n));
                    assert(all@.map_values(|f: Fruit| f@)[i as int] == all@[i as int]@);
                }
                out.push(all[i]);
                proof {
                    assert(fruit_models(out@) =~= fruit_models(before).push(catalog()[i as int]));
                    let fs = parse_emojis(cs@.skip(pos + n));
                    if fs is Some {
                        assert(fruit_models(before) + (seq![catalog()[i as int]] + fs->Some_0)
                            =~= fruit_models(out@) + fs->Some_0);
                    }
                }
                pos = pos + n;
            },
        }
    }
    proof {
        assert(cs@.skip(pos as int) =~= Seq::<char>::empty());
        assert(fruit_models(out@) + Seq::<FruitModel>::empty() =~= fruit_models(out@));
    }
    Some(out)
}

/// `'` + `s` + `'`.
pub open spec fn quoted(s: Seq<char>) -> Seq<char> {
    "'"@ + s + "'"@
}

/// The message for a name that no member has.
pub open spec fn no_member_message(name: Seq<char>) -> Seq<char> {
    "no member named "@ + quoted(name)
}

/// The message for a word that is no fruit's emoji.
pub open spec fn unknown_emoji_message(word: Seq<char>) -> Seq<char> {
    "unknown fruit emoji "@ + quoted(word)
}

fn no_member(name: &str) -> (m: String)
    ensures
        m@ == no_member_message(name@),
{
    let mut m = String::from_str("no member named '");
    m.append(name);
    m.append("'");
    proof {
        reveal_strlit("no member named '");
        reveal_strlit("no member named ");
        reveal_strlit("'");
        assert(m@ =~= no_member_message(name@));
    }
    m
}

fn unknown_emoji(word: &str) -> (m: String)
    ensures
        m@ == unknown_emoji_message(word@),
{
    let mut m = String::from_str("unknown fruit emoji '");
    m.append(word);
    m.append("'");
    proof {
        reveal_strlit("unknown fruit emoji '");
        reveal_strlit("unknown fruit emoji ");
        reveal_strlit("'");
        assert(m@ =~= unknown_emoji_message(word@));
    }
    m
}

/// The catalog fruit whose emoji is `e`.
pub open spec fn emoji_fruit(e: Seq<char>) -> Option<FruitModel> {
    if exists|i: int| 0 <= i < catalog().len() && catalog()[i].emoji == e {
        Some(catalog()[choose|i: int| 0 <= i < catalog().len() && catalog()[i].emoji == e])
    } else {
        None
    }
}

fn lookup_emoji(e: &str) -> (r: Option<Fruit>)
    ensures
        match r {
            Some(f) => emoji_fruit(e@) == Some(f@),
            None => emoji_fruit(e@) is None,
        },
{
    proof {
        crate::fruit::lemma_catalog_emojis_distinct();
    }
    match fruit_by_emoji(e) {
        Some(f) => {
            proof {
                let i = choose|i: int|
                    0 <= i < catalog().len() && catalog()[i] == f@ && f@.emoji == e@ && forall|
                        j: int,
                    | 0 <= j < i ==> catalog()[j].emoji != e@;
                let k = choose|k: int| 0 <= k < catalog().len() && catalog()[k].emoji == e@;
                assert(k == i);
            }
            Some(f)
        },
        None => None,
    }
}

/// A gift asked for at the prompt: one `fruit` from `sender_id` to `recipient_id`.
pub struct GiftCommand {
    /// The member giving the fruit.
    pub sender_id: MemberId,
    /// The fruit to give.
    pub fruit: Fruit,
    /// The member receiving the fruit.
    pub recipient_id: MemberId,
}

impl GiftCommand {
    /// The event payload of the gift, without a message.
    pub fn payload(&self) -> (p: EventPayload)
        ensures
            p@ == (PayloadModel::Gift {
                sender_id: self.sender_id,
                recipient_id: self.recipient_id,
                fruit: self.fruit@,
                message: None,
            }),
    {
        EventPayload::Gift {
            sender_id: self.sender_id,
            recipient_id: self.recipient_id,
            fruit: self.fruit,
            message: None,
        }
    }
}

/// What `gift <sender> <emoji> <recipient>` asks for: the sender is the
/// first word, the fruit the second, the recipient the rest joined by
/// spaces; or the message that refuses it.
pub open spec fn gift_plan(roster: Seq<crate::member::MemberModel>, words: Seq<Seq<char>>) -> Result<
    (MemberId, FruitModel, MemberId),
    Seq<char>,
> {
    if words.len() < 3 {
        Err("usage: gift <sender> <emoji> <recipient>"@)
    } else {
        match emoji_fruit(words[1]) {
            None => Err(unknown_emoji_message(words[1])),
            Some(f) => match first_named(roster, words[0]) {
                None => Err(no_member_message(words[0])),
                Some(s) => match first_named(roster, joined(words.skip(2))) {
                    None => Err(no_member_message(joined(words.skip(2)))),
                    Some(r) => Ok((s, f, r)),
                },
            },
        }
    }
}

/// Reads the arguments of the `gift` command against `community`.
pub fn plan_gift(community: &Community, args: &Vec<String>) -> (r: Result<GiftCommand, String>)
    requires
        community.wf(),
    ensures
        match r {
            Ok(g) => gift_plan(community.roster(), word_views(args@)) == Ok::<
                (MemberId, FruitModel, MemberId),
                Seq<char>,
            >((g.sender_id, g.fruit@, g.recipient_id)),
            Err(m) => gift_plan(community.roster(), word_views(args@)) == Err::<
                (MemberId, FruitModel, MemberId),
                Seq<char>,
            >(m@),
        },
{
    let ghost words = word_views(args@);
    if args.len() < 3 {
        return Err(String::from_str("usage: gift <sender> <emoji> <recipient>"));
    }
    assert(words[0] == args@[0]@ && words[1] == args@[1]@);
    assert(words.subrange(2, words.len() as int) =~= words.skip(2));
    let fruit = match lookup_emoji(args[1].as_str()) {
        Some(f) => f,
        None => return Err(unknown_emoji(args[1].as_str())),
    };
    let sender_id = match community.member_named(args[0].as_str()) {
        Some(id) => id,
        None => return Err(no_member(args[0].as_str())),
    };
    let recipient_name = join_words(args, 2, args.len());
    let recipient_id = match community.member_named(recipient_name.as_str()) {
        Some(id) => id,
        None => return Err(no_member(recipient_name.as_str())),
    };
    Ok(GiftCommand { sender_id, fruit, recipient_id })
}

/// What the prompt records for a command: one event with `payload`, then one
/// effect for that event with `mutations`, which may be none.
pub struct CommandRecord {
    /// The payload of the event.
    pub payload: EventPayload,
    /// The mutations of the effect that follows the event.
    pub mutations: Vec<StateMutation>,
}

/// Reads the `gift` command against `community` and gives what it records:
/// the gift event, without a message, and an effect with the mutations of
/// the gift, recorded even when the sender does not hold the fruit and the
/// effect has no mutations. A refused command records nothing.
pub fn plan_gift_record(community: &Community, args: &Vec<String>) -> (r: Result<CommandRecord, String>)
    requires
        community.wf(),
    ensures
        match gift_plan(community.roster(), word_views(args@)) {
            Err(m) => r matches Err(e) && e@ == m,
            Ok((s, f, rc)) => r matches Ok(rec) && rec.payload@ == (PayloadModel::Gift {
                sender_id: s,
                recipient_id: rc,
                fruit: f,
                message: None,
            }) && mutation_models(rec.mutations@) == gift_models(community@, s, rc, f),
        },
{
    match plan_gift(community, args) {
        Err(m) => Err(m),
        Ok(g) => {
            let mutations = compute_gift(community, g.sender_id, g.recipient_id, g.fruit);
            Ok(CommandRecord { payload: g.payload(), mutations })
        },
    }
}

/// The fruits named by `words`, each read as a run of emojis, concatenated;
/// or the first word that is not such a run.
pub open spec fn words_fruits(words: Seq<Seq<char>>) -> Result<Seq<FruitModel>, Seq<char>>
    decreases words.len(),
{
    if words.len() == 0 {
        Ok(Seq::empty())
    } else {
        match words_fruits(words.drop_last()) {
            Err(w) => Err(w),
            Ok(fs) => match parse_emojis(words.last()) {
                None => Err(words.last()),
                Some(more) => Ok(fs + more),
            },
        }
    }
}

/// What `burn <name> <emoji> [<emoji>...]` asks for: the member named by
/// the first word and the fruits of the others; or the message that refuses it.
pub open spec fn burn_plan(roster: Seq<crate::member::MemberModel>, words: Seq<Seq<char>>) -> Result<
    (MemberId, Seq<FruitModel>),
    Seq<char>,
> {
    if words.len() < 2 {
        Err("usage: burn <name> <emoji> [<emoji>...]"@)
    } else {
        match words_fruits(words.skip(1)) {
            Err(w) => Err(unknown_emoji_message(w)),
            Ok(fs) => match first_named(roster, words[0]) {
                None => Err(no_member_message(words[0])),
                Some(id) => Ok((id, fs)),
            },
        }
    }
}

proof fn lemma_words_fruits_err_extends(words: Seq<Seq<char>>, k: int, m: int)
    requires
        0 <= k <= m <= words.len(),
        words_fruits(words.take(k)) is Err,
    ensures
        words_fruits(words.take(m)) == words_fruits(words.take(k)),
    decreases m - k,
{
    if m > k {
        lemma_words_fruits_err_extends(words, k, m - 1);
        assert(words.take(m).drop_last() =~= words.take(m - 1));
    }
}

/// Reads the arguments of the `burn` command against `community`.
pub fn plan_burn(community: &Community, args: &Vec<String>) -> (r: Result<(MemberId, Vec<Fruit>), String>)
    requires
        community.wf(),
    ensures
        match r {
            Ok((id, fs)) => burn_plan(community.roster(), word_views(args@)) == Ok::<
                (MemberId, Seq<FruitModel>),
                Seq<char>,
            >((id, fruit_models(fs@))),
            Err(m) => burn_plan(community.roster(), word_views(args@)) == Err::<
                (MemberId, Seq<FruitModel>),
                Seq<char>,
            >(m@),
        },
{
    let ghost words = word_views(args@);
    if args.len() < 2 {
        return Err(String::from_str("usage: burn <name> <emoji> [<emoji>...]"));
    }
    let ghost rest = words.skip(1);
    let mut fruits: Vec<Fruit> = Vec::new();
    let mut i: usize = 1;
    assert(rest.take(0) =~= Seq::<Seq<char>>::empty());
    assert(fruit_models(fruits@) =~= Seq::<FruitModel>::empty());
    while i < args.len()
        invariant
            1 <= i <= args@.len(),
            words == word_views(args@),
            rest == words.skip(1),
            words_fruits(rest.take(i - 1)) == Ok::<Seq<FruitModel>, Seq<char>>(fruit_models(fruits@)),
        decreases args@.len() - i,
    {
        let k: usize = i - 1;
        assert(rest.take(k + 1).drop_last() =~= rest.take(k as int));
        assert(rest.take(k + 1).last() == args@[i as int]@);
        match parse_fruit_emojis(args[i].as_str()) {
            Some(more) => {
                let ghost before = fruit_models(fruits@);
                let mut more = more;
                let ghost added = fruit_models(more@);
                fruits.append(&mut more);
                assert(fruit_models(fruits@) =~= before + added);
            },
            None => {
                proof {
                    lemma_words_fruits_err_extends(rest, k + 1, rest.len() as int);
                    assert(rest.take(rest.len() as int) =~= rest);
                }
                return Err(unknown_emoji(args[i].as_str()));
            },
        }
        i = i + 1;
    }
    assert(rest.take(i - 1) =~= rest);
    let member_id = match community.member_named(args[0].as_str()) {
        Some(id) => id,
        None => return Err(no_member(args[0].as_str())),
    };
    Ok((member_id, fruits))
}

/// What `remove <name>` asks for: the member named by all the words joined
/// by spaces; or the message that refuses it.
pub open spec fn remove_plan(roster: Seq<crate::member::MemberModel>, words: Seq<Seq<char>>) -> Result<MemberId, Seq<char>> {
    if words.len() == 0 {
        Err("usage: remove <name>"@)
    } else {
        match first_named(roster, joined(words)) {
            None => Err(no_member_message(joined(words))),
            Some(id) => Ok(id),
        }
    }
}

/// Reads the arguments of the `remove` command against `community`.
pub fn plan_remove(community: &Community, args: &Vec<String>) -> (r: Result<MemberId, String>)
    requires
        community.wf(),
    ensures
        match r {
            Ok(id) => remove_plan(community.roster(), word_views(args@)) == Ok::<MemberId, Seq<char>>(id),
            Err(m) => remove_plan(community.roster(), word_views(args@)) == Err::<MemberId, Seq<char>>(m@),
        },
{
    if args.len() == 0 {
        return Err(String::from_str("usage: remove <name>"));
    }
    let name = join_words(args, 0, args.len());
    assert(word_views(args@).subrange(0, args@.len() as int) =~= word_views(args@));
    match community.member_named(name.as_str()) {
        Some(id) => Ok(id),
        None => Err(no_member(name.as_str())),
    }
}

/// Reads the arguments of the `add` command: the new member's name is all
/// the words joined by spaces.
pub fn plan_add(args: &Vec<String>) -> (r: Result<String, String>)
    ensures
        match r {
            Ok(name) => args@.len() > 0 && name@ == joined(word_views(args@)),
            Err(m) => args@.len() == 0 && m@ == "usage: add <name>"@,
        },
{
    if args.len() == 0 {
        return Err(String::from_str("usage: add <name>"));
    }
    let name = join_words(args, 0, args.len());
    assert(word_views(args@).subrange(0, args@.len() as int) =~= word_views(args@));
    Ok(name)
}

/// Whose luck `luck [<name>] <value>` sets, once its value is read: the
/// community's with one word, else the member named by all words but the
/// last joined by spaces; or the message that refuses it.
pub open spec fn luck_target(roster: Seq<crate::member::MemberModel>, words: Seq<Seq<char>>) -> Result<Option<MemberId>, Seq<char>> {
    if words.len() <= 1 {
        Ok(None)
    } else {
        let name = joined(words.drop_last());
        match first_named(roster, name) {
            None => Err(no_member_message(name)),
            Some(id) => Ok(Some(id)),
        }
    }
}

/// Reads whose luck the `luck` command sets, against `community`.
pub fn plan_luck_target(community: &Community, args: &Vec<String>) -> (r: Result<Option<MemberId>, String>)
    requires
        community.wf(),
    ensures
        match r {
            Ok(t) => luck_target(community.roster(), word_views(args@)) == Ok::<Option<MemberId>, Seq<char>>(t),
            Err(m) => luck_target(community.roster(), word_views(args@)) == Err::<Option<MemberId>, Seq<char>>(m@),
        },
{
    if args.len() <= 1 {
        return Ok(None);
    }
    let name = join_words(args, 0, args.len() - 1);
    assert(word_views(args@).subrange(0, args@.len() - 1) =~= word_views(args@).drop_last());
    match community.member_named(name.as_str()) {
        Some(id) => Ok(Some(id)),
        None => Err(no_member(name.as_str())),
    }
}

} // verus!
