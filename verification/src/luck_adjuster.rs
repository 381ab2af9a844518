//! The luck adjustment of a community at grant time, on its own.
//!
//! It reads, in turn, the latest grant event, the community snapshot at that
//! grant, the records between that grant and the given sequence id, and the
//! [`RECENT_GIFT_LIMIT`] most recent gift records; then it computes the luck
//! mutations with [`compute`]. The reads go through storage ports outside the
//! library: each stage below says what to read and takes the outcome. A failed
//! read ends the adjustment with the error of the port, unchanged.

use vstd::prelude::*;

use crate::community::{Community, CommunityModel};
use crate::error::Error;
use crate::event_log::{mutation_models, Event, MutationModel, Record, StateMutation};
use crate::ids::{CommunityId, HasCommunityId, SequenceId};
use crate::luck_adjustments::{compute, luck_mutations, RECENT_GIFT_LIMIT};

verus! {

/// How many grant events the adjustment reads: the latest one.
pub const LATEST_GRANT_LIMIT: usize = 1;

/// Computes luck-adjustment mutations for a community at grant time.
pub struct LuckAdjuster {}

/// It asks for the [`LATEST_GRANT_LIMIT`] most recent grant events.
pub struct GrantLookup {
    community_id: CommunityId,
    before: SequenceId,
}

/// It asks for the community snapshot at the latest grant.
pub struct SnapshotLookup {
    community_id: CommunityId,
    before: SequenceId,
    prev: SequenceId,
}

/// It asks for the records strictly between the latest grant and `before`.
pub struct RecordsLookup {
    community_id: CommunityId,
    before: SequenceId,
    prev: SequenceId,
    at_last_grant: Community,
}

/// It asks for the [`RECENT_GIFT_LIMIT`] most recent gift records.
pub struct GiftsLookup {
    community_id: CommunityId,
    at_last_grant: Community,
    between: Vec<Record>,
}

impl LuckAdjuster {
    /// A new adjuster.
    pub fn new() -> (a: LuckAdjuster) {
        LuckAdjuster {  }
    }

    /// Starts computing the luck mutations for `community` at the point just
    /// before `before`.
    pub fn compute(&self, community: &Community, before: SequenceId) -> (r: GrantLookup)
        ensures
            r.community_id_spec() == community@.id,
            r.before_spec() == before,
    {
        GrantLookup { community_id: community.community_id(), before }
    }
}

impl GrantLookup {
    /// The community being adjusted.
    pub closed spec fn community_id_spec(&self) -> CommunityId {
        self.community_id
    }

    /// The adjustment covers the records strictly before this sequence id.
    pub closed spec fn before_spec(&self) -> SequenceId {
        self.before
    }

    /// The community whose latest grant is to be read.
    pub fn community_id(&self) -> (id: CommunityId)
        ensures
            id == self.community_id_spec(),
    {
        self.community_id
    }

    /// How many grant events to read.
    pub fn limit(&self) -> (n: usize)
        ensures
            n == LATEST_GRANT_LIMIT,
    {
        LATEST_GRANT_LIMIT
    }

    /// Continues from the latest grant, or from the start of the log
    /// (sequence id 0) when there is none.
    pub fn on_latest_grants(self, grants: Result<Vec<Event>, Error>) -> (r: Result<SnapshotLookup, Error>)
        ensures
            match grants {
                Err(e) => r == Err::<SnapshotLookup, Error>(e),
                Ok(g) => r matches Ok(s) && s.community_id_spec() == self.community_id_spec()
                    && s.before_spec() == self.before_spec() && s.prev_spec() == (if g@.len() == 0 {
                    0
                } else {
                    g@[0].id.0
                }),
            },
    {
        let GrantLookup { community_id, before } = self;
        match grants {
            Err(e) => Err(e),
            Ok(g) => {
                let prev = if g.len() == 0 {
                    SequenceId(0)
                } else {
                    g[0].id
                };
                Ok(SnapshotLookup { community_id, before, prev })
            },
        }
    }
}

impl SnapshotLookup {
    /// The community being adjusted.
    pub closed spec fn community_id_spec(&self) -> CommunityId {
        self.community_id
    }

    /// The adjustment covers the records strictly before this sequence id.
    pub closed spec fn before_spec(&self) -> SequenceId {
        self.before
    }

    /// The latest grant (0 if none).
    pub closed spec fn prev_spec(&self) -> u64 {
        self.prev.0
    }

    /// The community whose snapshot is to be read.
    pub fn community_id(&self) -> (id: CommunityId)
        ensures
            id == self.community_id_spec(),
    {
        self.community_id
    }

    /// The version of the snapshot to read: the latest grant.
    pub fn version(&self) -> (v: SequenceId)
        ensures
            v.0 == self.prev_spec(),
    {
        self.prev
    }

    /// Continues with the snapshot at the latest grant; where none is stored,
    /// an empty community with the same identifier stands for it.
    pub fn on_snapshot(self, snapshot: Result<Option<Community>, Error>) -> (r: Result<RecordsLookup, Error>)
        requires
            snapshot matches Ok(Some(c)) ==> c.wf(),
        ensures
            match snapshot {
                Err(e) => r == Err::<RecordsLookup, Error>(e),
                Ok(c) => r matches Ok(s) && s.wf() && s.community_id_spec() == self.community_id_spec()
                    && s.before_spec() == self.before_spec() && s.prev_spec() == self.prev_spec()
                    && s.at_last_grant_spec() == match c {
                    Some(x) => x@,
                    None => CommunityModel {
                        id: self.community_id_spec(),
                        luck: 0,
                        members: Map::empty(),
                        version: 0,
                    },
                },
            },
    {
        let SnapshotLookup { community_id, before, prev } = self;
        match snapshot {
            Err(e) => Err(e),
            Ok(c) => {
                let at_last_grant = match c {
                    Some(x) => x,
                    None => Community::empty(community_id),
                };
                Ok(RecordsLookup { community_id, before, prev, at_last_grant })
            },
        }
    }
}

impl RecordsLookup {
    /// The community being adjusted.
    pub closed spec fn community_id_spec(&self) -> CommunityId {
        self.community_id
    }

    /// The adjustment covers the records strictly before this sequence id.
    pub closed spec fn before_spec(&self) -> SequenceId {
        self.before
    }

    /// The latest grant (0 if none).
    pub closed spec fn prev_spec(&self) -> u64 {
        self.prev.0
    }

    /// The community as of the latest grant.
    pub closed spec fn at_last_grant_spec(&self) -> CommunityModel {
        self.at_last_grant@
    }

    /// The invariant of the stage.
    pub closed spec fn wf(&self) -> bool {
        self.at_last_grant.wf()
    }

    /// The community whose records are to be read.
    pub fn community_id(&self) -> (id: CommunityId)
        ensures
            id == self.community_id_spec(),
    {
        self.community_id
    }

    /// The records to read lie strictly after this sequence id.
    pub fn after(&self) -> (a: SequenceId)
        ensures
            a.0 == self.prev_spec(),
    {
        self.prev
    }

    /// The records to read lie strictly before this sequence id.
    pub fn before(&self) -> (b: SequenceId)
        ensures
            b == self.before_spec(),
    {
        self.before
    }

    /// Continues with the records since the latest grant.
    pub fn on_records(self, records: Result<Vec<Record>, Error>) -> (r: Result<GiftsLookup, Error>)
        requires
            self.wf(),
        ensures
            match records {
                Err(e) => r == Err::<GiftsLookup, Error>(e),
                Ok(rs) => r matches Ok(s) && s.wf() && s.community_id_spec() == self.community_id_spec()
                    && s.at_last_grant_spec() == self.at_last_grant_spec() && s.between_spec() == rs@,
            },
    {
        let RecordsLookup { community_id, before, prev, at_last_grant } = self;
        match records {
            Err(e) => Err(e),
            Ok(between) => Ok(GiftsLookup { community_id, at_last_grant, between }),
        }
    }
}

impl GiftsLookup {
    /// The community being adjusted.
    pub closed spec fn community_id_spec(&self) -> CommunityId {
        self.community_id
    }

    /// The community as of the latest grant.
    pub closed spec fn at_last_grant_spec(&self) -> CommunityModel {
        self.at_last_grant@
    }

    /// The records since the latest grant.
    pub closed spec fn between_spec(&self) -> Seq<Record> {
        self.between@
    }

    /// The invariant of the stage.
    pub closed spec fn wf(&self) -> bool {
        self.at_last_grant.wf()
    }

    /// The community whose gift history is to be read.
    pub fn community_id(&self) -> (id: CommunityId)
        ensures
            id == self.community_id_spec(),
    {
        self.community_id
    }

    /// How many of the most recent gift records to read.
    pub fn limit(&self) -> (n: usize)
        ensures
            n == RECENT_GIFT_LIMIT,
    {
        RECENT_GIFT_LIMIT
    }

    /// Ends the adjustment: the luck mutations computed from the snapshot at
    /// the latest grant, the records since then and the recent gifts.
    pub fn on_gifts(self, gifts: Result<Vec<Record>, Error>) -> (r: Result<Vec<StateMutation>, Error>)
        requires
            self.wf(),
        ensures
            match gifts {
                Err(e) => r == Err::<Vec<StateMutation>, Error>(e),
                Ok(g) => r matches Ok(m) && mutation_models(m@) == luck_mutations(
                    self.at_last_grant_spec(),
                    self.between_spec(),
                    g@,
                ),
            },
    {
        match gifts {
            Err(e) => Err(e),
            Ok(g) => Ok(compute(&self.at_last_grant, self.between.as_slice(), g.as_slice())),
        }
    }
}

} // verus!
