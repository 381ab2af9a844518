//! Storage encoding of community snapshots.

use vstd::prelude::*;
use vstd::string::*;

use crate::codec::{
    community_id_decode, community_id_from_bytes, encodes_id, lemma_id_decode_encoded,
    lemma_member_round_trip, member_decode, member_encodes, member_in_catalog, MemberDto,
};
use crate::community::{Community, CommunityModel};
use crate::ids::{HasCommunityId, uuid_text, CommunityId, MemberId, SequenceId};
use crate::keys::{sk_community, sort_key};
use crate::member::{Member, MemberModel};
use crate::storage_error::Error;

verus! {

/// The stored item of a community snapshot.
#[derive(Debug, PartialEq, Eq)]
pub struct CommunityItem {
    /// Partition key: the UUID bytes of the community.
    pub pk: Vec<u8>,
    /// Sort key: `COMMUNITY#` and the zero-padded version.
    pub sk: String,
    /// The community's raw luck.
    pub luck: u8,
    /// The snapshot's version.
    pub version: u64,
    /// The members, each keyed by the UUID text of its identifier.
    pub members: Vec<(String, MemberDto)>,
}

/// The members of `ms` keyed by identifier; a later member replaces an
/// earlier one with the same identifier.
pub open spec fn map_of(ms: Seq<MemberModel>) -> Map<MemberId, MemberModel>
    decreases ms.len(),
{
    if ms.len() == 0 {
        Map::empty()
    } else {
        map_of(ms.drop_last()).insert(ms.last().id, ms.last())
    }
}

/// The stored member forms of the entries.
pub open spec fn entry_dtos(entries: Seq<(String, MemberDto)>) -> Seq<MemberDto> {
    entries.map_values(|e: (String, MemberDto)| e.1)
}

/// The members stored in `ds`, or the message of the first that cannot be read.
pub open spec fn members_decode(ds: Seq<MemberDto>) -> Result<Seq<MemberModel>, Seq<char>>
    decreases ds.len(),
{
    if ds.len() == 0 {
        Ok(Seq::empty())
    } else {
        match members_decode(ds.drop_last()) {
            Err(e) => Err(e),
            Ok(ms) => match member_decode(ds.last()) {
                Err(e) => Err(e),
                Ok(m) => Ok(ms.push(m)),
            },
        }
    }
}

/// The community stored in `item`, or the message of the first part that
/// cannot be read: the partition key, then the members in order.
pub open spec fn community_decode(item: CommunityItem) -> Result<CommunityModel, Seq<char>> {
    match community_id_decode(item.pk@) {
        Err(e) => Err(e),
        Ok(id) => match members_decode(entry_dtos(item.members@)) {
            Err(e) => Err(e),
            Ok(ms) => Ok(
                CommunityModel {
                    id,
                    luck: item.luck,
                    members: map_of(ms),
                    version: item.version,
                },
            ),
        },
    }
}

/// `entries` list the members of `m` once each, as `ms` in order: each keyed
/// by the UUID text of its identifier and stored in member form.
pub open spec fn roster_for(
    entries: Seq<(String, MemberDto)>,
    ms: Seq<MemberModel>,
    m: Map<MemberId, MemberModel>,
) -> bool {
    &&& ms.len() == entries.len()
    &&& forall|i: int| 0 <= i < ms.len() ==> (#[trigger] entries[i]).0@ == uuid_text(ms[i].id.0)
    &&& forall|i: int| 0 <= i < ms.len() ==> member_encodes((#[trigger] entries[i]).1, ms[i])
    &&& forall|i: int|
        0 <= i < ms.len() ==> m.dom().contains((#[trigger] ms[i]).id) && m[ms[i].id] == ms[i]
    &&& forall|i: int, j: int| 0 <= i < j < ms.len() ==> (#[trigger] ms[i]).id != (#[trigger] ms[j]).id
    &&& forall|k: MemberId| #[trigger] m.dom().contains(k) ==> exists|i: int| 0 <= i < ms.len() && (#[trigger] ms[i]).id == k
}

/// Whether `item` stores the community `c`.
pub open spec fn community_item_encodes(item: CommunityItem, c: CommunityModel) -> bool {
    &&& encodes_id(item.pk@, c.id.0)
    &&& item.sk@ == sort_key("COMMUNITY#"@, c.version as nat)
    &&& item.luck == c.luck
    &&& item.version == c.version
    &&& exists|ms: Seq<MemberModel>| roster_for(item.members@, ms, c.members)
}

/// Whether every member of `c` holds only catalog fruits.
pub open spec fn community_in_catalog(c: CommunityModel) -> bool {
    forall|k: MemberId| c.members.dom().contains(k) ==> member_in_catalog(#[trigger] c.members[k])
}

proof fn lemma_map_of(ms: Seq<MemberModel>, k: MemberId)
    requires
        forall|i: int, j: int| 0 <= i < j < ms.len() ==> (#[trigger] ms[i]).id != (#[trigger] ms[j]).id,
    ensures
        map_of(ms).dom().contains(k) <==> exists|i: int| 0 <= i < ms.len() && ms[i].id == k,
        forall|i: int| 0 <= i < ms.len() && ms[i].id == k ==> map_of(ms)[k] == ms[i],
    decreases ms.len(),
{
    if ms.len() > 0 {
        let p = ms.drop_last();
        lemma_map_of(p, k);
        let n = ms.len() - 1;
        if exists|i: int| 0 <= i < p.len() && p[i].id == k {
            let i = choose|i: int| 0 <= i < p.len() && p[i].id == k;
            assert(ms[i].id == k);
        }
        if exists|i: int| 0 <= i < ms.len() && ms[i].id == k {
            let i = choose|i: int| 0 <= i < ms.len() && ms[i].id == k;
            if i < n {
                assert(p[i].id == k);
            }
        }
        assert forall|i: int| 0 <= i < ms.len() && ms[i].id == k implies map_of(ms)[k] == ms[i] by {
            if i < n {
                assert(p[i] == ms[i]);
                assert(ms[i].id != ms[n].id);
            }
        }
    }
}

proof fn lemma_members_round_trip_prefix(entries: Seq<(String, MemberDto)>, ms: Seq<MemberModel>, m: Map<MemberId, MemberModel>, k: int)
    requires
        roster_for(entries, ms, m),
        forall|x: MemberId| m.dom().contains(x) ==> member_in_catalog(#[trigger] m[x]),
        0 <= k <= entries.len(),
    ensures
        members_decode(entry_dtos(entries).take(k)) == Ok::<Seq<MemberModel>, Seq<char>>(ms.take(k)),
    decreases k,
{
    let ds = entry_dtos(entries);
    if k > 0 {
        lemma_members_round_trip_prefix(entries, ms, m, k - 1);
        assert(ds.take(k).drop_last() =~= ds.take(k - 1));
        assert(ds.take(k).last() == entries[k - 1].1);
        assert(m[ms[k - 1].id] == ms[k - 1]);
        lemma_member_round_trip(entries[k - 1].1, ms[k - 1]);
        assert(ms.take(k - 1).push(ms[k - 1]) =~= ms.take(k));
    } else {
        assert(ds.take(0) =~= Seq::<MemberDto>::empty());
        assert(ms.take(0) =~= Seq::<MemberModel>::empty());
    }
}

proof fn lemma_members_decode_err_extends(ds: Seq<MemberDto>, k: int, m: int)
    requires
        0 <= k <= m <= ds.len(),
        members_decode(ds.take(k)) is Err,
    ensures
        members_decode(ds.take(m)) == members_decode(ds.take(k)),
    decreases m - k,
{
    if m > k {
        lemma_members_decode_err_extends(ds, k, m - 1);
        assert(ds.take(m).drop_last() =~= ds.take(m - 1));
    }
}

/// A community whose members hold catalog fruits is read back from its item.
pub proof fn lemma_community_round_trip(item: CommunityItem, c: CommunityModel)
    requires
        community_item_encodes(item, c),
        community_in_catalog(c),
    ensures
        community_decode(item) == Ok::<CommunityModel, Seq<char>>(c),
{
    lemma_id_decode_encoded(item.pk@, c.id.0, "invalid community_id"@);
    let ms = choose|ms: Seq<MemberModel>| roster_for(item.members@, ms, c.members);
    lemma_members_round_trip_prefix(item.members@, ms, c.members, item.members@.len() as int);
    assert(entry_dtos(item.members@).take(item.members@.len() as int) =~= entry_dtos(item.members@));
    assert(ms.take(ms.len() as int) =~= ms);
    assert forall|k: MemberId| #[trigger] map_of(ms).dom().contains(k) == c.members.dom().contains(k) by {
        lemma_map_of(ms, k);
        if c.members.dom().contains(k) {
            let i = choose|i: int| 0 <= i < ms.len() && (#[trigger] ms[i]).id == k;
        }
    }
    assert forall|k: MemberId| #[trigger] c.members.dom().contains(k) implies map_of(ms)[k] == c.members[k] by {
        lemma_map_of(ms, k);
        let i = choose|i: int| 0 <= i < ms.len() && (#[trigger] ms[i]).id == k;
        assert(c.members[ms[i].id] == ms[i]);
    }
    assert(map_of(ms) =~= c.members);
}

fn copy_string(s: &String) -> (r: String)
    ensures
        r@ == s@,
{
    String::from_str(s.as_str())
}

/// The stored item of `community`.
pub fn encode_community(community: &Community) -> (item: CommunityItem)
    requires
        community.wf(),
    ensures
        community_item_encodes(item, community@),
{
    let members = community.members();
    let mut entries: Vec<(String, MemberDto)> = Vec::new();
    let mut i: usize = 0;
    proof {
        community.lemma_roster();
    }
    let ghost roster = community.roster();
    while i < members.len()
        invariant
            members@.map_values(|m: Member| m@) == roster,
            i <= members@.len(),
            entries@.len() == i,
            forall|k: int| 0 <= k < i ==> (#[trigger] entries@[k]).0@ == uuid_text(roster[k].id.0),
            forall|k: int| 0 <= k < i ==> member_encodes((#[trigger] entries@[k]).1, roster[k]),
        decreases members@.len() - i,
    {
        let m = &members[i];
        assert(roster[i as int] == m@);
        entries.push((m.id.to_uuid_string(), MemberDto::encode(m)));
        i = i + 1;
    }
    proof {
        let ms = roster.subrange(0, entries@.len() as int);
        assert(ms =~= roster);
        assert forall|a: int, b: int| 0 <= a < b < roster.len() implies (#[trigger] roster[a]).id != (#[trigger] roster[b]).id by {
            assert(roster[a].id.0 < roster[b].id.0);
        }
        assert(roster_for(entries@, roster, community@.members));
    }
    let item = CommunityItem {
        pk: community.community_id().uuid_bytes(),
        sk: sk_community(community.version()),
        luck: community.luck_raw(),
        version: community.version().0,
        members: entries,
    };
    assert(roster_for(item.members@, roster, community@.members));
    item
}

/// The community stored in `item`.
pub fn decode_community(item: &CommunityItem) -> (r: Result<Community, Error>)
    ensures
        match r {
            Ok(c) => c.wf() && community_decode(*item) == Ok::<CommunityModel, Seq<char>>(c@),
            Err(e) => e matches Error::Codec { message } && community_decode(*item) == Err::<
                CommunityModel,
                Seq<char>,
            >(message@),
        },
{
    let id = match community_id_from_bytes(item.pk.as_slice()) {
        Ok(id) => id,
        Err(e) => return Err(e),
    };
    let mut community = Community::empty(id);
    community.set_luck(item.luck);
    community.set_version(SequenceId(item.version));
    let ghost ds = entry_dtos(item.members@);
    let ghost mut ms: Seq<MemberModel> = Seq::empty();
    let mut i: usize = 0;
    assert(ds.take(0) =~= Seq::<MemberDto>::empty());
    assert(map_of(ms) =~= community@.members);
    while i < item.members.len()
        invariant
            i <= ds.len(),
            ds == entry_dtos(item.members@),
            community.wf(),
            community@.id == id,
            community@.luck == item.luck,
            community@.version == item.version,
            community_id_decode(item.pk@) == Ok::<CommunityId, Seq<char>>(id),
            members_decode(ds.take(i as int)) == Ok::<Seq<MemberModel>, Seq<char>>(ms),
            community@.members == map_of(ms),
        decreases ds.len() - i,
    {
        proof {
            assert(ds.take(i + 1).drop_last() =~= ds.take(i as int));
            assert(ds.take(i + 1).last() == item.members@[i as int].1);
        }
        match item.members[i].1.decode() {
            Ok(m) => {
                let ghost mm = m@;
                let ghost before = community@.members;
                let mid = m.id;
                let removed = community.remove_member(mid);
                let inserted = community.add_member(m);
                proof {
                    let old_ms = ms;
                    ms = ms.push(mm);
                    assert(ms.drop_last() =~= old_ms);
                    assert(community@.members =~= before.insert(mid, mm));
                    assert(community@.members =~= map_of(ms));
                }
            },
            Err(e) => {
                proof {
                    lemma_members_decode_err_extends(ds, i + 1, ds.len() as int);
                    assert(ds.take(ds.len() as int) =~= ds);
                }
                return Err(e);
            },
        }
        i = i + 1;
    }
    assert(ds.take(i as int) =~= ds);
    Ok(community)
}

} // verus!
