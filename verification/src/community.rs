//! Communities: groups of members that share a collective luck score.

use vstd::prelude::*;

use crate::bag::multiset_value;
use crate::fruit::Fruit;
use crate::ids::{CommunityId, HasCommunityId, MemberId, SequenceId};
use crate::member::{Member, MemberModel};

verus! {

/// What a community is, as a mathematical value.
pub struct CommunityModel {
    pub id: CommunityId,
    pub luck: u8,
    pub members: Map<MemberId, MemberModel>,
    pub version: u64,
}

/// Member identifiers strictly increase along `s`.
pub open spec fn ids_sorted(s: Seq<Member>) -> bool {
    forall|i: int, j: int| 0 <= i < j < s.len() ==> (#[trigger] s[i]).id.0 < (#[trigger] s[j]).id.0
}

/// Some position of `s` holds the member `k`.
pub open spec fn holds_id(s: Seq<Member>, k: MemberId) -> bool {
    exists|i: int| 0 <= i < s.len() && (#[trigger] s[i]).id == k
}

/// The members of `s`, keyed by their identifiers.
pub open spec fn members_map(s: Seq<Member>) -> Map<MemberId, MemberModel> {
    Map::new(
        |k: MemberId| holds_id(s, k),
        |k: MemberId| s[choose|i: int| 0 <= i < s.len() && (#[trigger] s[i]).id == k]@,
    )
}

proof fn lemma_lookup(s: Seq<Member>, i: int)
    requires
        ids_sorted(s),
        0 <= i < s.len(),
    ensures
        members_map(s).dom().contains(s[i].id),
        members_map(s)[s[i].id] == s[i]@,
{
    assert(holds_id(s, s[i].id));
    let j = choose|j: int| 0 <= j < s.len() && (#[trigger] s[j]).id == s[i].id;
    if j != i {
        if j < i {
            assert(s[j].id.0 < s[i].id.0);
        } else {
            assert(s[i].id.0 < s[j].id.0);
        }
    }
}

proof fn lemma_same_views(s: Seq<Member>, t: Seq<Member>)
    requires
        s.len() == t.len(),
        forall|i: int| 0 <= i < s.len() ==> #[trigger] t[i]@ == s[i]@,
        ids_sorted(s),
    ensures
        ids_sorted(t),
        members_map(s) == members_map(t),
{
    assert forall|i: int| 0 <= i < s.len() implies #[trigger] t[i].id == s[i].id by {
        assert(t[i]@ == s[i]@);
    }
    assert forall|k: MemberId| #[trigger] members_map(s).dom().contains(k) <==> members_map(t).dom().contains(k) by {
        if holds_id(s, k) {
            let j = choose|j: int| 0 <= j < s.len() && (#[trigger] s[j]).id == k;
            assert(t[j].id == k);
        }
        if holds_id(t, k) {
            let j = choose|j: int| 0 <= j < t.len() && (#[trigger] t[j]).id == k;
            assert(s[j].id == k);
        }
    }
    assert forall|k: MemberId| #[trigger] members_map(s).dom().contains(k) implies members_map(s)[k]
        == members_map(t)[k] by {
        let js = choose|j: int| 0 <= j < s.len() && (#[trigger] s[j]).id == k;
        lemma_lookup(s, js);
        lemma_lookup(t, js);
    }
    assert(members_map(s) =~= members_map(t));
}

proof fn lemma_update(s: Seq<Member>, i: int, m: Member)
    requires
        ids_sorted(s),
        0 <= i < s.len(),
        m.id == s[i].id,
    ensures
        ids_sorted(s.update(i, m)),
        members_map(s.update(i, m)) == members_map(s).insert(m.id, m@),
{
    let t = s.update(i, m);
    assert forall|a: int, b: int| 0 <= a < b < t.len() implies (#[trigger] t[a]).id.0 < (
    #[trigger] t[b]).id.0 by {
        assert(s[a].id.0 < s[b].id.0);
    }
    assert forall|k: MemberId| #[trigger] members_map(t).dom().contains(k) <==> members_map(
        s,
    ).insert(m.id, m@).dom().contains(k) by {
        if holds_id(s, k) {
            let j = choose|j: int| 0 <= j < s.len() && (#[trigger] s[j]).id == k;
            assert(t[j].id == k);
        }
        if holds_id(t, k) {
            let j = choose|j: int| 0 <= j < t.len() && (#[trigger] t[j]).id == k;
            assert(s[j].id == k);
        }
    }
    assert forall|k: MemberId| #[trigger] members_map(t).dom().contains(k) implies members_map(t)[k]
        == members_map(s).insert(m.id, m@)[k] by {
        let j = choose|j: int| 0 <= j < t.len() && (#[trigger] t[j]).id == k;
        lemma_lookup(t, j);
        if j != i {
            lemma_lookup(s, j);
        }
    }
    assert(members_map(t) =~= members_map(s).insert(m.id, m@));
}

proof fn lemma_insert_at(s: Seq<Member>, pos: int, m: Member)
    requires
        ids_sorted(s),
        0 <= pos <= s.len(),
        forall|j: int| 0 <= j < pos ==> (#[trigger] s[j]).id.0 < m.id.0,
        forall|j: int| pos <= j < s.len() ==> m.id.0 < (#[trigger] s[j]).id.0,
    ensures
        ids_sorted(s.insert(pos, m)),
        members_map(s.insert(pos, m)) == members_map(s).insert(m.id, m@),
        !members_map(s).dom().contains(m.id),
{
    let t = s.insert(pos, m);
    assert forall|a: int, b: int| 0 <= a < b < t.len() implies (#[trigger] t[a]).id.0 < (
    #[trigger] t[b]).id.0 by {
        if a < pos && b < pos {
            assert(s[a].id.0 < s[b].id.0);
        } else if a < pos && b > pos {
            assert(s[a].id.0 < s[b - 1].id.0);
        } else if a > pos {
            assert(s[a - 1].id.0 < s[b - 1].id.0);
        }
    }
    if holds_id(s, m.id) {
        let j = choose|j: int| 0 <= j < s.len() && (#[trigger] s[j]).id == m.id;
        assert(false);
    }
    assert forall|k: MemberId| #[trigger] members_map(t).dom().contains(k) <==> members_map(
        s,
    ).insert(m.id, m@).dom().contains(k) by {
        if holds_id(s, k) {
            let j = choose|j: int| 0 <= j < s.len() && (#[trigger] s[j]).id == k;
            if j < pos {
                assert(t[j].id == k);
            } else {
                assert(t[j + 1].id == k);
            }
        }
        if k == m.id {
            assert(t[pos].id == k);
        }
        if holds_id(t, k) {
            let j = choose|j: int| 0 <= j < t.len() && (#[trigger] t[j]).id == k;
            if j < pos {
                assert(s[j].id == k);
            } else if j > pos {
                assert(s[j - 1].id == k);
            }
        }
    }
    assert forall|k: MemberId| #[trigger] members_map(t).dom().contains(k) implies members_map(t)[k]
        == members_map(s).insert(m.id, m@)[k] by {
        let j = choose|j: int| 0 <= j < t.len() && (#[trigger] t[j]).id == k;
        lemma_lookup(t, j);
        if j < pos {
            lemma_lookup(s, j);
        } else if j > pos {
            lemma_lookup(s, j - 1);
        }
    }
    assert(members_map(t) =~= members_map(s).insert(m.id, m@));
}

proof fn lemma_remove_at(s: Seq<Member>, i: int)
    requires
        ids_sorted(s),
        0 <= i < s.len(),
    ensures
        ids_sorted(s.remove(i)),
        members_map(s.remove(i)) == members_map(s).remove(s[i].id),
{
    let t = s.remove(i);
    assert forall|a: int, b: int| 0 <= a < b < t.len() implies (#[trigger] t[a]).id.0 < (
    #[trigger] t[b]).id.0 by {
        if b < i {
            assert(s[a].id.0 < s[b].id.0);
        } else if a < i {
            assert(s[a].id.0 < s[b + 1].id.0);
        } else {
            assert(s[a + 1].id.0 < s[b + 1].id.0);
        }
    }
    assert forall|k: MemberId| #[trigger] members_map(t).dom().contains(k) <==> members_map(
        s,
    ).remove(s[i].id).dom().contains(k) by {
        if holds_id(s, k) && k != s[i].id {
            let j = choose|j: int| 0 <= j < s.len() && (#[trigger] s[j]).id == k;
            if j < i {
                assert(t[j].id == k);
            } else {
                assert(t[j - 1].id == k);
            }
        }
        if holds_id(t, k) {
            let j = choose|j: int| 0 <= j < t.len() && (#[trigger] t[j]).id == k;
            if j < i {
                assert(s[j].id == k);
                assert(s[j].id.0 < s[i].id.0);
            } else {
                assert(s[j + 1].id == k);
                assert(s[i].id.0 < s[j + 1].id.0);
            }
        }
    }
    assert forall|k: MemberId| #[trigger] members_map(t).dom().contains(k) implies members_map(t)[k]
        == members_map(s).remove(s[i].id)[k] by {
        let j = choose|j: int| 0 <= j < t.len() && (#[trigger] t[j]).id == k;
        lemma_lookup(t, j);
        if j < i {
            lemma_lookup(s, j);
        } else {
            lemma_lookup(s, j + 1);
        }
    }
    assert(members_map(t) =~= members_map(s).remove(s[i].id));
}

/// The domain of `members_map(s)` is the set of identifiers occurring in `s`.
proof fn lemma_members_map_finite(s: Seq<Member>)
    ensures
        members_map(s).dom() == s.map_values(|m: Member| m.id).to_set(),
        members_map(s).dom().finite(),
{
    let ids = s.map_values(|m: Member| m.id);
    assert forall|k: MemberId| members_map(s).dom().contains(k) implies ids.to_set().contains(k) by {
        let j = choose|j: int| 0 <= j < s.len() && (#[trigger] s[j]).id == k;
        assert(ids[j] == k);
    }
    assert forall|k: MemberId| ids.to_set().contains(k) implies members_map(s).dom().contains(k) by {
        let j = choose|j: int| 0 <= j < ids.len() && ids[j] == k;
        assert(s[j].id == k);
    }
    assert(members_map(s).dom() =~= ids.to_set());
    vstd::seq_lib::seq_to_set_is_finite(ids);
}

/// Total value (in units of 1/255) of all fruits held by the members of `m`.
pub open spec fn members_value(m: Map<MemberId, MemberModel>) -> nat
    decreases m.dom().len(),
{
    if m.dom().finite() && m.dom().len() > 0 {
        let k = m.dom().choose();
        multiset_value(m[k].bag) + members_value(m.remove(k))
    } else {
        0
    }
}

/// Removing any member `k` lowers the total value by exactly that member's bag value.
pub proof fn lemma_members_value_remove(m: Map<MemberId, MemberModel>, k: MemberId)
    requires
        m.dom().finite(),
        m.dom().contains(k),
    ensures
        members_value(m) == multiset_value(m[k].bag) + members_value(m.remove(k)),
    decreases m.dom().len(),
{
    let c = m.dom().choose();
    if c != k {
        assert(m.remove(c).dom().contains(k));
        assert(m.remove(k).dom().contains(c));
        lemma_members_value_remove(m.remove(c), k);
        lemma_members_value_remove(m.remove(k), c);
        assert(m.remove(c).remove(k) =~= m.remove(k).remove(c));
        assert(m.remove(c)[k] == m[k]);
        assert(m.remove(k)[c] == m[c]);
    }
}

/// Total value of the bags of a sequence of members.
pub open spec fn roster_value(s: Seq<MemberModel>) -> nat
    decreases s.len(),
{
    if s.len() == 0 {
        0
    } else {
        roster_value(s.drop_last()) + multiset_value(s.last().bag)
    }
}

proof fn lemma_sorted_value(s: Seq<Member>)
    requires
        ids_sorted(s),
    ensures
        members_value(members_map(s)) == roster_value(s.map_values(|m: Member| m@)),
    decreases s.len(),
{
    if s.len() == 0 {
        lemma_members_map_finite(s);
        assert(members_map(s).dom() =~= Set::<MemberId>::empty());
    } else {
        let t = s.drop_last();
        let last = s.last();
        assert(ids_sorted(t));
        lemma_sorted_value(t);
        assert(t.insert(t.len() as int, last) =~= s);
        assert forall|j: int| 0 <= j < t.len() implies (#[trigger] t[j]).id.0 < last.id.0 by {
            assert(s[j].id.0 < s[s.len() - 1].id.0);
        }
        lemma_insert_at(t, t.len() as int, last);
        lemma_members_map_finite(s);
        lemma_members_map_finite(t);
        lemma_members_value_remove(members_map(s), last.id);
        assert(members_map(s).remove(last.id) =~= members_map(t));
        assert(s.map_values(|m: Member| m@).drop_last() =~= t.map_values(|m: Member| m@));
    }
}

/// The first member of `roster` whose display name is `name`.
pub open spec fn first_named(roster: Seq<MemberModel>, name: Seq<char>) -> Option<MemberId> {
    if exists|i: int| 0 <= i < roster.len() && roster[i].display_name == name {
        Some(
            roster[choose|i: int|
                0 <= i < roster.len() && roster[i].display_name == name && forall|j: int|
                    0 <= j < i ==> (#[trigger] roster[j]).display_name != name].id,
        )
    } else {
        None
    }
}

/// A group of members that share a collective luck modifier.
#[derive(Debug, PartialEq, Eq)]
pub struct Community {
    /// Unique identifier for this community.
    pub id: CommunityId,
    /// Raw luck score in `0..=255`; `0` is neutral.
    pub luck: u8,
    members: Vec<Member>,
    /// The event log position up to which this snapshot has been computed.
    ///
    /// `SequenceId(0)` means no effects have been applied yet.
    pub version: SequenceId,
}

impl View for Community {
    type V = CommunityModel;

    closed spec fn view(&self) -> CommunityModel {
        CommunityModel {
            id: self.id,
            luck: self.luck,
            members: members_map(self.members@),
            version: self.version.0,
        }
    }
}

/// A community with the given fields.
pub open spec fn community_model(
    id: CommunityId,
    luck: u8,
    members: Map<MemberId, MemberModel>,
    version: u64,
) -> CommunityModel {
    CommunityModel { id, luck, members, version }
}

impl Clone for Community {
    fn clone(&self) -> (c: Community)
        ensures
            self.wf() ==> c.wf() && c@ == self@,
    {
        let members = self.members.clone();
        proof {
            assert forall|i: int| 0 <= i < members@.len() implies #[trigger] members@[i]@ == self.members@[i]@ by {
                assert(vstd::pervasive::cloned::<Member>(self.members@[i], members@[i]));
            }
            if self.wf() {
                lemma_same_views(self.members@, members@);
            }
        }
        Community { id: self.id, luck: self.luck, members, version: self.version }
    }
}

impl Community {
    /// The representation invariant: members are kept ordered by identifier,
    /// so each identifier occurs at most once.
    pub closed spec fn wf(&self) -> bool {
        ids_sorted(self.members@)
    }

    /// The members in ascending identifier order.
    pub closed spec fn roster(&self) -> Seq<MemberModel> {
        self.members@.map_values(|m: Member| m@)
    }

    /// The roster lists exactly the members of the view, each once, in
    /// ascending identifier order.
    pub proof fn lemma_roster(&self)
        requires
            self.wf(),
        ensures
            self.roster().len() == self@.members.dom().len(),
            forall|i: int, j: int|
                0 <= i < j < self.roster().len() ==> (#[trigger] self.roster()[i]).id.0 < (
                #[trigger] self.roster()[j]).id.0,
            forall|i: int|
                0 <= i < self.roster().len() ==> self@.members.dom().contains(
                    (#[trigger] self.roster()[i]).id,
                ) && self@.members[self.roster()[i].id] == self.roster()[i],
            forall|k: MemberId| #[trigger]
                self@.members.dom().contains(k) ==> exists|i: int|
                    0 <= i < self.roster().len() && (#[trigger] self.roster()[i]).id == k,
    {
        let s = self.members@;
        assert forall|i: int| 0 <= i < self.roster().len() implies self@.members.dom().contains(
            (#[trigger] self.roster()[i]).id,
        ) && self@.members[self.roster()[i].id] == self.roster()[i] by {
            lemma_lookup(s, i);
        }
        assert forall|k: MemberId| #[trigger]
            self@.members.dom().contains(k) implies exists|i: int|
                0 <= i < self.roster().len() && (#[trigger] self.roster()[i]).id == k by {
            let j = choose|j: int| 0 <= j < s.len() && (#[trigger] s[j]).id == k;
            assert(self.roster()[j].id == k);
        }
        let ids = s.map_values(|m: Member| m.id);
        assert(self@.members.dom() =~= ids.to_set()) by {
            assert forall|k: MemberId| self@.members.dom().contains(k) implies ids.to_set().contains(k) by {
                let j = choose|j: int| 0 <= j < s.len() && (#[trigger] s[j]).id == k;
                assert(ids[j] == k);
            }
            assert forall|k: MemberId| ids.to_set().contains(k) implies self@.members.dom().contains(k) by {
                let j = choose|j: int| 0 <= j < ids.len() && ids[j] == k;
                assert(s[j].id == k);
            }
        }
        assert(ids.no_duplicates()) by {
            assert forall|a: int, b: int|
                0 <= a < ids.len() && 0 <= b < ids.len() && a != b implies #[trigger] ids[a] != #[trigger] ids[b] by {
                if a < b {
                    assert(s[a].id.0 < s[b].id.0);
                } else {
                    assert(s[b].id.0 < s[a].id.0);
                }
            }
        }
        ids.unique_seq_to_set();
    }

    /// The total value of all bags equals the sum over the roster, and the
    /// members' domain is finite.
    pub proof fn lemma_value_roster(&self)
        requires
            self.wf(),
        ensures
            members_value(self@.members) == roster_value(self.roster()),
            self@.members.dom().finite(),
    {
        lemma_sorted_value(self.members@);
        lemma_members_map_finite(self.members@);
    }

    /// A community with the given identifier, neutral luck, no members, version zero.
    pub fn empty(id: CommunityId) -> (c: Community)
        ensures
            c.wf(),
            c@ == community_model(id, 0, Map::empty(), 0),
    {
        let c = Community { id, luck: 0, members: Vec::new(), version: SequenceId(0) };
        assert(c@.members =~= Map::<MemberId, MemberModel>::empty());
        c
    }

    /// Creates a new community with a random ID, neutral luck (`0`), and no members.
    pub fn new() -> (c: Community)
        ensures
            c.wf(),
            crate::ids::is_v4_uuid(c@.id.0),
            c@.luck == 0,
            c@.members == Map::<MemberId, MemberModel>::empty(),
            c@.version == 0,
    {
        Community::empty(CommunityId::new())
    }

    /// Overrides the ID. Useful when reconstituting a community from stored data.
    pub fn with_id(self, id: CommunityId) -> (c: Community)
        ensures
            c@ == (CommunityModel { id, ..self@ }),
            self.wf() ==> c.wf(),
    {
        Community { id, ..self }
    }

    /// Overrides the raw luck score.
    pub fn with_luck(self, luck: u8) -> (c: Community)
        ensures
            c@ == (CommunityModel { luck, ..self@ }),
            self.wf() ==> c.wf(),
    {
        Community { luck, ..self }
    }

    /// Overrides the version. Useful when reconstituting a community from stored data.
    pub fn with_version(self, version: SequenceId) -> (c: Community)
        ensures
            c@ == (CommunityModel { version: version.0, ..self@ }),
            self.wf() ==> c.wf(),
    {
        Community { version, ..self }
    }

    /// Sets the raw luck score in place.
    pub fn set_luck(&mut self, luck: u8)
        ensures
            final(self)@ == (CommunityModel { luck, ..old(self)@ }),
            old(self).wf() ==> final(self).wf(),
    {
        self.luck = luck;
    }

    /// Sets the version in place.
    pub fn set_version(&mut self, version: SequenceId)
        ensures
            final(self)@ == (CommunityModel { version: version.0, ..old(self)@ }),
            old(self).wf() ==> final(self).wf(),
    {
        self.version = version;
    }

    /// Whether the representation invariant holds: members are ordered by
    /// strictly increasing identifier.
    pub fn is_well_formed(&self) -> (b: bool)
        ensures
            b == self.wf(),
    {
        let mut i: usize = 1;
        while i < self.members.len()
            invariant
                1 <= i,
                i <= self.members@.len() || self.members@.len() == 0,
                forall|a: int, b: int|
                    0 <= a < b < i && b < self.members@.len() ==> (#[trigger] self.members@[a]).id.0
                        < (#[trigger] self.members@[b]).id.0,
            decreases self.members@.len() - i,
        {
            if self.members[i - 1].id.0 >= self.members[i].id.0 {
                return false;
            }
            proof {
                assert forall|a: int, b: int|
                    0 <= a < b < i + 1 && b < self.members@.len() implies (#[trigger] self.members@[a]).id.0
                        < (#[trigger] self.members@[b]).id.0 by {
                    if b == i as int && a < i - 1 {
                        assert(self.members@[a].id.0 < self.members@[i - 1].id.0);
                    }
                }
            }
            i = i + 1;
        }
        true
    }

    /// The first member, in identifier order, whose display name is `name`.
    pub fn member_named(&self, name: &str) -> (r: Option<MemberId>)
        requires
            self.wf(),
        ensures
            r == first_named(self.roster(), name@),
            match r {
                Some(id) => self@.members.dom().contains(id) && self@.members[id].display_name
                    == name@,
                None => forall|k: MemberId| #[trigger]
                    self@.members.dom().contains(k) ==> self@.members[k].display_name != name@,
            },
    {
        proof {
            self.lemma_roster();
        }
        let mut i: usize = 0;
        while i < self.members.len()
            invariant
                ids_sorted(self.members@),
                i <= self.members@.len(),
                forall|j: int| 0 <= j < i ==> (#[trigger] self.members@[j]).display_name@ != name@,
            decreases self.members@.len() - i,
        {
            if crate::fruit::str_eq(self.members[i].display_name.as_str(), name) {
                proof {
                    lemma_lookup(self.members@, i as int);
                    assert(self.roster()[i as int] == self.members@[i as int]@);
                    assert forall|j: int| 0 <= j < i implies (#[trigger] self.roster()[j]).display_name != name@ by {
                        assert(self.roster()[j] == self.members@[j]@);
                    }
                    let c = choose|c: int|
                        0 <= c < self.roster().len() && self.roster()[c].display_name == name@ && forall|j: int|
                            0 <= j < c ==> (#[trigger] self.roster()[j]).display_name != name@;
                    assert(c == i);
                }
                return Some(self.members[i].id);
            }
            i = i + 1;
        }
        proof {
            assert forall|k: MemberId| #[trigger] self@.members.dom().contains(k) implies self@.members[k].display_name != name@ by {
                let j = choose|j: int| 0 <= j < self.roster().len() && (#[trigger] self.roster()[j]).id == k;
                assert(self.roster()[j] == self.members@[j]@);
                lemma_lookup(self.members@, j);
            }
            assert forall|j: int| 0 <= j < self.roster().len() implies self.roster()[j].display_name != name@ by {
                assert(self.roster()[j] == self.members@[j]@);
            }
        }
        None
    }

    /// The snapshot's version: the log position up to which effects are applied.
    pub fn version(&self) -> (v: SequenceId)
        ensures
            v.0 == self@.version,
    {
        self.version
    }

    /// The raw luck score in `0..=255`.
    pub fn luck_raw(&self) -> (l: u8)
        ensures
            l == self@.luck,
    {
        self.luck
    }

    /// The number of members.
    pub fn member_count(&self) -> (n: usize)
        requires
            self.wf(),
        ensures
            n == self@.members.dom().len(),
    {
        proof {
            self.lemma_roster();
        }
        self.members.len()
    }

    /// The members in ascending identifier order.
    pub fn members(&self) -> (ms: &Vec<Member>)
        ensures
            ms@.map_values(|m: Member| m@) == self.roster(),
    {
        &self.members
    }

    /// Position of the member `id`, or where it would be inserted.
    fn locate(&self, id: MemberId) -> (r: (usize, bool))
        requires
            self.wf(),
        ensures
            r.0 <= self.members@.len(),
            r.1 ==> r.0 < self.members@.len() && self.members@[r.0 as int].id == id,
            !r.1 ==> (forall|j: int| 0 <= j < r.0 ==> (#[trigger] self.members@[j]).id.0 < id.0)
                && (forall|j: int|
                r.0 <= j < self.members@.len() ==> id.0 < (#[trigger] self.members@[j]).id.0),
    {
        let mut i: usize = 0;
        while i < self.members.len()
            invariant
                ids_sorted(self.members@),
                i <= self.members@.len(),
                forall|j: int| 0 <= j < i ==> (#[trigger] self.members@[j]).id.0 < id.0,
            decreases self.members@.len() - i,
        {
            let mid = self.members[i].id.0;
            if mid == id.0 {
                return (i, true);
            }
            if mid > id.0 {
                assert forall|j: int| i <= j < self.members@.len() implies id.0 < (
                #[trigger] self.members@[j]).id.0 by {
                    if j > i {
                        assert(self.members@[i as int].id.0 < self.members@[j].id.0);
                    }
                }
                return (i, false);
            }
            i = i + 1;
        }
        (i, false)
    }

    /// The member with identifier `id`, if present.
    pub fn member(&self, id: MemberId) -> (r: Option<&Member>)
        requires
            self.wf(),
        ensures
            match r {
                Some(m) => self@.members.dom().contains(id) && self@.members[id] == m@ && m.id == id,
                None => !self@.members.dom().contains(id),
            },
    {
        let (i, found) = self.locate(id);
        if found {
            proof {
                lemma_lookup(self.members@, i as int);
            }
            Some(&self.members[i])
        } else {
            proof {
                if holds_id(self.members@, id) {
                    let j = choose|j: int|
                        0 <= j < self.members@.len() && (#[trigger] self.members@[j]).id == id;
                    if j < i {
                        assert(self.members@[j].id.0 < id.0);
                    } else {
                        assert(id.0 < self.members@[j].id.0);
                    }
                }
            }
            None
        }
    }

    /// Adds `member` to the community. Returns `true` if the member was newly inserted,
    /// `false` if a member with the same ID was already present.
    pub fn add_member(&mut self, member: Member) -> (inserted: bool)
        requires
            old(self).wf(),
        ensures
            final(self).wf(),
            inserted == !old(self)@.members.dom().contains(member.id),
            final(self)@ == (if inserted {
                CommunityModel { members: old(self)@.members.insert(member.id, member@), ..old(self)@ }
            } else {
                old(self)@
            }),
    {
        let (i, found) = self.locate(member.id);
        if found {
            proof {
                lemma_lookup(self.members@, i as int);
            }
            false
        } else {
            proof {
                lemma_insert_at(self.members@, i as int, member);
            }
            self.members.insert(i, member);
            true
        }
    }

    /// Removes the member with the given `id`. Returns the removed member, or `None`
    /// if no such member existed.
    pub fn remove_member(&mut self, id: MemberId) -> (removed: Option<Member>)
        requires
            old(self).wf(),
        ensures
            final(self).wf(),
            final(self)@ == (CommunityModel { members: old(self)@.members.remove(id), ..old(self)@ }),
            match removed {
                Some(m) => old(self)@.members.dom().contains(id) && old(self)@.members[id] == m@,
                None => !old(self)@.members.dom().contains(id),
            },
    {
        let (i, found) = self.locate(id);
        if found {
            proof {
                lemma_lookup(self.members@, i as int);
                lemma_remove_at(self.members@, i as int);
            }
            let m = self.members.remove(i);
            Some(m)
        } else {
            proof {
                if holds_id(self.members@, id) {
                    let j = choose|j: int|
                        0 <= j < self.members@.len() && (#[trigger] self.members@[j]).id == id;
                    if j < i {
                        assert(self.members@[j].id.0 < id.0);
                    } else {
                        assert(id.0 < self.members@[j].id.0);
                    }
                }
                assert(self@.members.remove(id) =~= self@.members);
            }
            None
        }
    }

    /// Replaces the member at position `i` with `m`, which has the same identifier.
    fn replace_at(&mut self, i: usize, m: Member)
        requires
            old(self).wf(),
            i < old(self).members@.len(),
            m.id == old(self).members@[i as int].id,
        ensures
            final(self).wf(),
            final(self)@ == (CommunityModel {
                members: old(self)@.members.insert(m.id, m@),
                ..old(self)@
            }),
    {
        proof {
            lemma_update(self.members@, i as int, m);
        }
        self.members.set(i, m);
    }

    /// Adds one `fruit` to the bag of member `id`; no change if there is no such member.
    pub fn give_fruit(&mut self, id: MemberId, fruit: Fruit)
        requires
            old(self).wf(),
        ensures
            final(self).wf(),
            final(self)@ == (if old(self)@.members.dom().contains(id) {
                CommunityModel {
                    members: old(self)@.members.insert(
                        id,
                        MemberModel {
                            bag: old(self)@.members[id].bag.insert(fruit@),
                            ..old(self)@.members[id]
                        },
                    ),
                    ..old(self)@
                }
            } else {
                old(self)@
            }),
    {
        match self.member(id) {
            None => {},
            Some(m) => {
                let ghost old_m = m@;
                let mut m2 = m.clone();
                m2.bag.add(fruit);
                let (i, _) = self.locate(id);
                self.replace_at(i, m2);
            },
        }
    }

    /// Removes one `fruit` from the bag of member `id`, if held; no change if
    /// there is no such member.
    pub fn take_fruit(&mut self, id: MemberId, fruit: Fruit)
        requires
            old(self).wf(),
        ensures
            final(self).wf(),
            final(self)@ == (if old(self)@.members.dom().contains(id) {
                CommunityModel {
                    members: old(self)@.members.insert(
                        id,
                        MemberModel {
                            bag: old(self)@.members[id].bag.remove(fruit@),
                            ..old(self)@.members[id]
                        },
                    ),
                    ..old(self)@
                }
            } else {
                old(self)@
            }),
    {
        match self.member(id) {
            None => {},
            Some(m) => {
                let mut m2 = m.clone();
                m2.bag.remove(fruit);
                let (i, _) = self.locate(id);
                self.replace_at(i, m2);
            },
        }
    }

    /// Sets the raw luck of member `id`; no change if there is no such member.
    pub fn set_member_luck(&mut self, id: MemberId, luck: u8)
        requires
            old(self).wf(),
        ensures
            final(self).wf(),
            final(self)@ == (if old(self)@.members.dom().contains(id) {
                CommunityModel {
                    members: old(self)@.members.insert(id, MemberModel { luck, ..old(self)@.members[id] }),
                    ..old(self)@
                }
            } else {
                old(self)@
            }),
    {
        match self.member(id) {
            None => {},
            Some(m) => {
                let m2 = m.clone().with_luck(luck);
                let (i, _) = self.locate(id);
                self.replace_at(i, m2);
            },
        }
    }
}

impl Default for Community {
    /// A new community with a random identifier, neutral luck, no members
    /// and version zero.
    fn default() -> (c: Community)
        ensures
            c.wf(),
            crate::ids::is_v4_uuid(c@.id.0),
            c@.luck == 0,
            c@.members == Map::<MemberId, MemberModel>::empty(),
            c@.version == 0,
    {
        Community::new()
    }
}

impl HasCommunityId for Community {
    fn community_id(&self) -> (id: CommunityId)
        ensures
            id == self@.id,
    {
        self.id
    }
}

} // verus!
