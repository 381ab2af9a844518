//! Granting fruit to a community: the decisions of a grant, step by step.
//!
//! A grant reads and writes the event log and the community store, which are
//! asynchronous ports outside the library, and asks a granter for the fruit.
//! Each stage below holds what the grant knows so far; the caller performs the
//! read or write that the stage asks for and hands its outcome to the stage,
//! which decides what comes next. The order of operations is:
//! 1. read the two most recent grants; if the latest has no effect, resume it,
//!    otherwise append a new grant event;
//! 2. read the snapshot at the previous grant and the records since then;
//! 3. read the recent gift history and compute the luck mutations;
//! 4. apply them to a copy of the community and let the granter grant fruit
//!    on the adjusted copy;
//! 5. persist the combined effect.
//!
//! Once the grant event is persisted, retrying is safe: a retry finds the
//! event without effect and resumes it. Failures from then on are reported as
//! [`Error::GrantInterrupted`].

use vstd::prelude::*;
use vstd::string::*;

use crate::community::{Community, CommunityModel};
use crate::community_store::is_storage_error;
use crate::error::{Error, StorageFailure, StorageLayerError};
use crate::event_log::{
    apply_mutations, clone_mutations, mutation_models, Effect, Event, EventPayload, MutationModel,
    PayloadModel, Record, StateMutation,
};
use crate::ids::{CommunityId, HasCommunityId, SequenceId};
use crate::luck_adjustments::{compute, luck_mutations, RECENT_GIFT_LIMIT};

verus! {

/// How many of the most recent grant events a grant reads.
pub const RECENT_GRANTS_LIMIT: usize = 2;

/// Whether `e` is [`Error::GrantInterrupted`] with `message`.
pub open spec fn is_interrupted(e: Error, message: Seq<char>) -> bool {
    e matches Error::GrantInterrupted(m) && m@ == message
}

fn fail(message: &str, f: StorageFailure) -> (e: Error)
    ensures
        is_storage_error(e, message@, f),
{
    Error::StorageLayerError(
        StorageLayerError { message: String::from_str(message), category: f.category, status: f.status },
    )
}

fn interrupted(message: &str) -> (e: Error)
    ensures
        is_interrupted(e, message@),
{
    Error::GrantInterrupted(String::from_str(message))
}

/// A grant that has not read anything yet: it asks for the
/// [`RECENT_GRANTS_LIMIT`] most recent grant events of its community.
pub struct GrantRequest {
    community: Community,
    count: usize,
}

/// After the most recent grants were read.
pub enum AfterLatestGrants {
    /// The read failed; nothing was written.
    Failed(Error),
    /// Check whether the latest grant has an effect.
    CheckOrphan(OrphanCheck),
    /// Append a new grant event.
    Append(GrantAppend),
}

/// The latest grant is known; it asks for the effect of that grant, to tell
/// whether an earlier attempt stopped after persisting it.
pub struct OrphanCheck {
    community: Community,
    count: usize,
    latest: Event,
    prev_if_orphaned: SequenceId,
}

/// After the latest grant's effect was looked up.
pub enum AfterOrphanCheck {
    /// The read failed; nothing was written.
    Failed(Error),
    /// The latest grant has no effect: resume it without a new event.
    Resume(SnapshotLoad),
    /// The latest grant is complete: append a new grant event.
    Append(GrantAppend),
}

/// A new grant event is to be appended; it asks for the append of
/// [`GrantAppend::payload`] to its community's log.
pub struct GrantAppend {
    community: Community,
    count: usize,
    prev: SequenceId,
}

/// The grant event is persisted; it asks for the community snapshot at the
/// previous grant.
pub struct SnapshotLoad {
    community: Community,
    count: usize,
    event: Event,
    prev: SequenceId,
}

/// It asks for the records strictly between the previous grant and this one.
pub struct RecordsLoad {
    community: Community,
    count: usize,
    event: Event,
    prev: SequenceId,
    at_last_grant: Community,
}

/// It asks for the [`RECENT_GIFT_LIMIT`] most recent gift records.
pub struct GiftsLoad {
    community: Community,
    count: usize,
    event: Event,
    prev: SequenceId,
    at_last_grant: Community,
    between: Vec<Record>,
}

/// The luck mutations are computed and applied to a copy of the community;
/// it asks the granter to grant [`Granting::count`] fruits to each member of
/// [`Granting::adjusted`].
pub struct Granting {
    community_id: CommunityId,
    event_id: SequenceId,
    count: usize,
    adjusted: Community,
    luck: Vec<StateMutation>,
}

/// The combined effect is known; it asks for the append of the effect.
pub struct EffectAppend {
    community_id: CommunityId,
    event_id: SequenceId,
    mutations: Vec<StateMutation>,
}

impl GrantRequest {
    /// The community being granted to.
    pub closed spec fn community_spec(&self) -> CommunityModel {
        self.community@
    }

    /// The number of fruits each member is to receive.
    pub closed spec fn count_spec(&self) -> usize {
        self.count
    }

    /// The invariant of the stage.
    pub closed spec fn wf(&self) -> bool {
        self.community.wf()
    }

    /// A grant of `count` fruits to each member of `community`.
    pub fn new(community: Community, count: usize) -> (r: GrantRequest)
        requires
            community.wf(),
        ensures
            r.wf(),
            r.community_spec() == community@,
            r.count_spec() == count,
    {
        GrantRequest { community, count }
    }

    /// The community whose latest grants are to be read.
    pub fn community_id(&self) -> (id: CommunityId)
        ensures
            id == self.community_spec().id,
    {
        self.community.community_id()
    }

    /// Decides from the latest grants (most recent first): with no grant yet,
    /// a new grant event follows the start of the log (sequence id 0);
    /// otherwise the latest grant's effect is checked. A failed read ends the
    /// grant.
    pub fn on_latest_grants(self, grants: Result<Vec<Event>, StorageFailure>) -> (r: AfterLatestGrants)
        requires
            self.wf(),
        ensures
            match grants {
                Err(f) => r matches AfterLatestGrants::Failed(e) && is_storage_error(
                    e,
                    "failed to read grant events to check for in-progress grant"@,
                    f,
                ),
                Ok(g) => if g@.len() == 0 {
                    r matches AfterLatestGrants::Append(a) && a.wf() && a.community_spec()
                        == self.community_spec() && a.count_spec() == self.count_spec()
                        && a.prev_spec() == 0
                } else {
                    r matches AfterLatestGrants::CheckOrphan(o) && o.wf() && o.community_spec()
                        == self.community_spec() && o.count_spec() == self.count_spec()
                        && o.latest_id() == g@[0].id && o.latest_community() == g@[0].community_id
                        && o.latest_payload() == g@[0].payload@ && o.prev_if_orphaned_spec() == (
                    if g@.len() > 1 {
                        g@[1].id.0
                    } else {
                        0
                    })
                },
            },
    {
        let GrantRequest { community, count } = self;
        match grants {
            Err(f) => AfterLatestGrants::Failed(
                fail("failed to read grant events to check for in-progress grant", f),
            ),
            Ok(g) => {
                if g.len() == 0 {
                    AfterLatestGrants::Append(GrantAppend { community, count, prev: SequenceId(0) })
                } else {
                    let prev_if_orphaned = if g.len() > 1 {
                        g[1].id
                    } else {
                        SequenceId(0)
                    };
                    let latest = g[0].clone();
                    AfterLatestGrants::CheckOrphan(
                        OrphanCheck { community, count, latest, prev_if_orphaned },
                    )
                }
            },
        }
    }
}

impl OrphanCheck {
    /// The community being granted to.
    pub closed spec fn community_spec(&self) -> CommunityModel {
        self.community@
    }

    /// The number of fruits each member is to receive.
    pub closed spec fn count_spec(&self) -> usize {
        self.count
    }

    /// The sequence id of the latest grant.
    pub closed spec fn latest_id(&self) -> SequenceId {
        self.latest.id
    }

    /// The community recorded in the latest grant event.
    pub closed spec fn latest_community(&self) -> CommunityId {
        self.latest.community_id
    }

    /// The payload of the latest grant event.
    pub closed spec fn latest_payload(&self) -> PayloadModel {
        self.latest.payload@
    }

    /// The grant before the latest one (0 if none): where a resumed grant
    /// starts counting from.
    pub closed spec fn prev_if_orphaned_spec(&self) -> u64 {
        self.prev_if_orphaned.0
    }

    /// The invariant of the stage.
    pub closed spec fn wf(&self) -> bool {
        self.community.wf()
    }

    /// The community of the latest grant event, whose effect is to be read.
    pub fn effect_community_id(&self) -> (id: CommunityId)
        ensures
            id == self.latest_community(),
    {
        self.latest.community_id
    }

    /// The sequence id of the latest grant event, whose effect is to be read.
    pub fn effect_event_id(&self) -> (id: SequenceId)
        ensures
            id == self.latest_id(),
    {
        self.latest.id
    }

    /// Decides from the latest grant's effect: without one, the grant stopped
    /// after its event was persisted and is resumed, counting from the grant
    /// before it; with one, a new grant event follows the latest grant. A
    /// failed read ends the grant.
    pub fn on_effect(self, effect: Result<Option<Effect>, StorageFailure>) -> (r: AfterOrphanCheck)
        requires
            self.wf(),
        ensures
            match effect {
                Err(f) => r matches AfterOrphanCheck::Failed(e) && is_storage_error(
                    e,
                    "failed to read effect while testing whether latest grant is in orphaned"@,
                    f,
                ),
                Ok(None) => r matches AfterOrphanCheck::Resume(s) && s.wf() && s.community_spec()
                    == self.community_spec() && s.count_spec() == self.count_spec() && s.event_id()
                    == self.latest_id() && s.event_payload() == self.latest_payload()
                    && s.prev_spec() == self.prev_if_orphaned_spec(),
                Ok(Some(_)) => r matches AfterOrphanCheck::Append(a) && a.wf() && a.community_spec()
                    == self.community_spec() && a.count_spec() == self.count_spec() && a.prev_spec()
                    == self.latest_id().0,
            },
    {
        let OrphanCheck { community, count, latest, prev_if_orphaned } = self;
        match effect {
            Err(f) => AfterOrphanCheck::Failed(
                fail("failed to read effect while testing whether latest grant is in orphaned", f),
            ),
            Ok(None) => AfterOrphanCheck::Resume(
                SnapshotLoad { community, count, event: latest, prev: prev_if_orphaned },
            ),
            Ok(Some(_)) => {
                let prev = latest.id;
                AfterOrphanCheck::Append(GrantAppend { community, count, prev })
            },
        }
    }
}

impl GrantAppend {
    /// The community being granted to.
    pub closed spec fn community_spec(&self) -> CommunityModel {
        self.community@
    }

    /// The number of fruits each member is to receive.
    pub closed spec fn count_spec(&self) -> usize {
        self.count
    }

    /// The latest complete grant (0 if none).
    pub closed spec fn prev_spec(&self) -> u64 {
        self.prev.0
    }

    /// The invariant of the stage.
    pub closed spec fn wf(&self) -> bool {
        self.community.wf()
    }

    /// The community whose log receives the grant event.
    pub fn community_id(&self) -> (id: CommunityId)
        ensures
            id == self.community_spec().id,
    {
        self.community.community_id()
    }

    /// The payload of the grant event to append.
    pub fn payload(&self) -> (p: EventPayload)
        ensures
            p@ == (PayloadModel::Grant { count: self.count_spec() }),
    {
        EventPayload::Grant { count: self.count }
    }

    /// Continues with the appended event. A failed append ends the grant
    /// with nothing written.
    pub fn on_appended(self, event: Result<Event, StorageFailure>) -> (r: Result<SnapshotLoad, Error>)
        requires
            self.wf(),
        ensures
            match event {
                Err(f) => r matches Err(e) && is_storage_error(e, "failed to create grant event"@, f),
                Ok(ev) => r matches Ok(s) && s.wf() && s.community_spec() == self.community_spec()
                    && s.count_spec() == self.count_spec() && s.event_id() == ev.id
                    && s.event_payload() == ev.payload@ && s.prev_spec() == self.prev_spec(),
            },
    {
        let GrantAppend { community, count, prev } = self;
        match event {
            Err(f) => Err(fail("failed to create grant event", f)),
            Ok(ev) => Ok(SnapshotLoad { community, count, event: ev, prev }),
        }
    }
}

impl SnapshotLoad {
    /// The community being granted to.
    pub closed spec fn community_spec(&self) -> CommunityModel {
        self.community@
    }

    /// The number of fruits each member is to receive.
    pub closed spec fn count_spec(&self) -> usize {
        self.count
    }

    /// The sequence id of the grant event being processed.
    pub closed spec fn event_id(&self) -> SequenceId {
        self.event.id
    }

    /// The payload of the grant event being processed.
    pub closed spec fn event_payload(&self) -> PayloadModel {
        self.event.payload@
    }

    /// The previous grant (0 if none).
    pub closed spec fn prev_spec(&self) -> u64 {
        self.prev.0
    }

    /// The invariant of the stage.
    pub closed spec fn wf(&self) -> bool {
        self.community.wf()
    }

    /// The community whose snapshot is to be read.
    pub fn community_id(&self) -> (id: CommunityId)
        ensures
            id == self.community_spec().id,
    {
        self.community.community_id()
    }

    /// The version of the snapshot to read: the previous grant.
    pub fn version(&self) -> (v: SequenceId)
        ensures
            v.0 == self.prev_spec(),
    {
        self.prev
    }

    /// Continues with the snapshot at the previous grant; where none is
    /// stored, an empty community with the same identifier stands for it.
    pub fn on_snapshot(self, snapshot: Result<Option<Community>, StorageFailure>) -> (r: Result<
        RecordsLoad,
        Error,
    >)
        requires
            self.wf(),
            snapshot matches Ok(Some(c)) ==> c.wf(),
        ensures
            match snapshot {
                Err(_) => r matches Err(e) && is_interrupted(
                    e,
                    "failed to read latest community while processing grant"@,
                ),
                Ok(c) => r matches Ok(s) && s.wf() && s.community_spec() == self.community_spec()
                    && s.count_spec() == self.count_spec() && s.event_id() == self.event_id()
                    && s.prev_spec() == self.prev_spec() && s.at_last_grant_spec() == match c {
                    Some(x) => x@,
                    None => CommunityModel {
                        id: self.community_spec().id,
                        luck: 0,
                        members: Map::empty(),
                        version: 0,
                    },
                },
            },
    {
        let SnapshotLoad { community, count, event, prev } = self;
        match snapshot {
            Err(_) => Err(interrupted("failed to read latest community while processing grant")),
            Ok(c) => {
                let at_last_grant = match c {
                    Some(x) => x,
                    None => Community::empty(community.community_id()),
                };
                Ok(RecordsLoad { community, count, event, prev, at_last_grant })
            },
        }
    }
}

impl RecordsLoad {
    /// The community being granted to.
    pub closed spec fn community_spec(&self) -> CommunityModel {
        self.community@
    }

    /// The number of fruits each member is to receive.
    pub closed spec fn count_spec(&self) -> usize {
        self.count
    }

    /// The sequence id of the grant event being processed.
    pub closed spec fn event_id(&self) -> SequenceId {
        self.event.id
    }

    /// The previous grant (0 if none).
    pub closed spec fn prev_spec(&self) -> u64 {
        self.prev.0
    }

    /// The community as of the previous grant.
    pub closed spec fn at_last_grant_spec(&self) -> CommunityModel {
        self.at_last_grant@
    }

    /// The invariant of the stage.
    pub closed spec fn wf(&self) -> bool {
        self.community.wf() && self.at_last_grant.wf()
    }

    /// The community whose records are to be read.
    pub fn community_id(&self) -> (id: CommunityId)
        ensures
            id == self.community_spec().id,
    {
        self.community.community_id()
    }

    /// The records to read lie strictly after this sequence id: the previous grant.
    pub fn after(&self) -> (a: SequenceId)
        ensures
            a.0 == self.prev_spec(),
    {
        self.prev
    }

    /// The records to read lie strictly before this sequence id: the grant event.
    pub fn before(&self) -> (b: SequenceId)
        ensures
            b == self.event_id(),
    {
        self.event.id
    }

    /// Continues with the records since the previous grant.
    pub fn on_records(self, records: Result<Vec<Record>, StorageFailure>) -> (r: Result<GiftsLoad, Error>)
        requires
            self.wf(),
        ensures
            match records {
                Err(_) => r matches Err(e) && is_interrupted(e, "failed to read records between grants"@),
                Ok(rs) => r matches Ok(s) && s.wf() && s.community_spec() == self.community_spec()
                    && s.count_spec() == self.count_spec() && s.event_id() == self.event_id()
                    && s.at_last_grant_spec() == self.at_last_grant_spec() && s.between_spec()
                    == rs@,
            },
    {
        let RecordsLoad { community, count, event, prev, at_last_grant } = self;
        match records {
            Err(_) => Err(interrupted("failed to read records between grants")),
            Ok(between) => Ok(GiftsLoad { community, count, event, prev, at_last_grant, between }),
        }
    }
}

impl GiftsLoad {
    /// The community being granted to.
    pub closed spec fn community_spec(&self) -> CommunityModel {
        self.community@
    }

    /// The number of fruits each member is to receive.
    pub closed spec fn count_spec(&self) -> usize {
        self.count
    }

    /// The sequence id of the grant event being processed.
    pub closed spec fn event_id(&self) -> SequenceId {
        self.event.id
    }

    /// The community as of the previous grant.
    pub closed spec fn at_last_grant_spec(&self) -> CommunityModel {
        self.at_last_grant@
    }

    /// The records since the previous grant.
    pub closed spec fn between_spec(&self) -> Seq<Record> {
        self.between@
    }

    /// The invariant of the stage.
    pub closed spec fn wf(&self) -> bool {
        self.community.wf() && self.at_last_grant.wf()
    }

    /// The community whose gift history is to be read.
    pub fn community_id(&self) -> (id: CommunityId)
        ensures
            id == self.community_spec().id,
    {
        self.community.community_id()
    }

    /// How many of the most recent gift records to read.
    pub fn limit(&self) -> (n: usize)
        ensures
            n == RECENT_GIFT_LIMIT,
    {
        RECENT_GIFT_LIMIT
    }

    /// Computes the luck mutations from the snapshot at the previous grant,
    /// the records since then and the recent gifts, and applies them to a
    /// copy of the community for the granter.
    pub fn on_gifts(self, gifts: Result<Vec<Record>, StorageFailure>) -> (r: Result<Granting, Error>)
        requires
            self.wf(),
        ensures
            match gifts {
                Err(_) => r matches Err(e) && is_interrupted(
                    e,
                    "failed to read gift history while processing grant"@,
                ),
                Ok(g) => r matches Ok(s) && s.wf() && s.community_id_spec()
                    == self.community_spec().id && s.event_id_spec() == self.event_id()
                    && s.count_spec() == self.count_spec() && s.luck_spec() == luck_mutations(
                    self.at_last_grant_spec(),
                    self.between_spec(),
                    g@,
                ) && s.adjusted_spec() == apply_mutations(self.community_spec(), s.luck_spec()),
            },
    {
        let GiftsLoad { community, count, event, prev, at_last_grant, between } = self;
        match gifts {
            Err(_) => Err(interrupted("failed to read gift history while processing grant")),
            Ok(g) => {
                let luck = compute(&at_last_grant, between.as_slice(), g.as_slice());
                let community_id = community.community_id();
                let mut adjusted = community;
                let effect = Effect { id: event.id, community_id, mutations: clone_mutations(&luck) };
                effect.apply(&mut adjusted);
                Ok(Granting { community_id, event_id: event.id, count, adjusted, luck })
            },
        }
    }
}

impl Granting {
    /// The community being granted to.
    pub closed spec fn community_id_spec(&self) -> CommunityId {
        self.community_id
    }

    /// The sequence id of the grant event being processed.
    pub closed spec fn event_id_spec(&self) -> SequenceId {
        self.event_id
    }

    /// The number of fruits each member is to receive.
    pub closed spec fn count_spec(&self) -> usize {
        self.count
    }

    /// The community with the luck mutations applied.
    pub closed spec fn adjusted_spec(&self) -> CommunityModel {
        self.adjusted@
    }

    /// The luck mutations of this grant.
    pub closed spec fn luck_spec(&self) -> Seq<MutationModel> {
        mutation_models(self.luck@)
    }

    /// The invariant of the stage.
    pub closed spec fn wf(&self) -> bool {
        self.adjusted.wf()
    }

    /// The community the granter grants to: the luck-adjusted copy.
    pub fn adjusted(&self) -> (c: &Community)
        ensures
            c@ == self.adjusted_spec(),
            self.wf() ==> c.wf(),
    {
        &self.adjusted
    }

    /// The number of fruits each member is to receive.
    pub fn count(&self) -> (n: usize)
        ensures
            n == self.count_spec(),
    {
        self.count
    }

    /// The effect of the grant: the luck mutations followed by the fruit
    /// that the granter granted.
    pub fn on_granted(self, fruit: Vec<StateMutation>) -> (r: EffectAppend)
        ensures
            r.community_id_spec() == self.community_id_spec(),
            r.event_id_spec() == self.event_id_spec(),
            r.mutations_spec() == self.luck_spec() + mutation_models(fruit@),
    {
        let Granting { community_id, event_id, count, adjusted, luck } = self;
        let mut mutations = luck;
        let ghost before = mutations@;
        let mut fruit = fruit;
        let ghost granted = fruit@;
        mutations.append(&mut fruit);
        assert(mutation_models(mutations@) =~= mutation_models(before) + mutation_models(granted));
        EffectAppend { community_id, event_id, mutations }
    }
}

impl EffectAppend {
    /// The community being granted to.
    pub closed spec fn community_id_spec(&self) -> CommunityId {
        self.community_id
    }

    /// The sequence id of the grant event, which the effect shares.
    pub closed spec fn event_id_spec(&self) -> SequenceId {
        self.event_id
    }

    /// The mutations of the effect.
    pub closed spec fn mutations_spec(&self) -> Seq<MutationModel> {
        mutation_models(self.mutations@)
    }

    /// The sequence id of the effect to append: that of the grant event.
    pub fn event_id(&self) -> (id: SequenceId)
        ensures
            id == self.event_id_spec(),
    {
        self.event_id
    }

    /// The community of the effect to append.
    pub fn community_id(&self) -> (id: CommunityId)
        ensures
            id == self.community_id_spec(),
    {
        self.community_id
    }

    /// A copy of the mutations of the effect to append.
    pub fn mutations(&self) -> (m: Vec<StateMutation>)
        ensures
            mutation_models(m@) == self.mutations_spec(),
    {
        clone_mutations(&self.mutations)
    }

    /// Ends the grant: all its mutations once the effect is persisted.
    pub fn on_appended(self, effect: Result<Effect, StorageFailure>) -> (r: Result<
        Vec<StateMutation>,
        Error,
    >)
        ensures
            match effect {
                Err(_) => r matches Err(e) && is_interrupted(e, "failed to create grant effect"@),
                Ok(_) => r matches Ok(m) && mutation_models(m@) == self.mutations_spec(),
            },
    {
        match effect {
            Err(_) => Err(interrupted("failed to create grant effect")),
            Ok(_) => Ok(self.mutations),
        }
    }
}

} // verus!
