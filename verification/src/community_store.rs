//! Bringing a stored community snapshot up to date with the effect log.
//!
//! The storage ports are asynchronous and live outside the library, so the
//! refresh is a sequence of decisions: the caller reads the latest snapshot,
//! hands it to [`LatestRefresh::begin`], then performs each requested read
//! or write and hands back its outcome, until the refresh is finished.

use vstd::prelude::*;
use vstd::string::*;

use crate::community::{Community, CommunityModel};
use crate::error::{Error, StorageFailure};
use crate::event_log::{apply_effect_seq, Effect};
use crate::ids::{CommunityId, HasCommunityId, SequenceId};
use crate::text::{decimal, push_decimal};

verus! {

/// Maximum number of effects fetched per page when advancing a community snapshot.
pub const EFFECTS_PAGE_SIZE: usize = 1000;

/// Applying effects batch after batch is applying them all at once.
pub proof fn lemma_apply_effect_seq_concat(c: CommunityModel, a: Seq<Effect>, b: Seq<Effect>)
    ensures
        apply_effect_seq(apply_effect_seq(c, a), b) == apply_effect_seq(c, a + b),
    decreases b.len(),
{
    if b.len() == 0 {
        assert(a + b =~= a);
    } else {
        lemma_apply_effect_seq_concat(c, a, b.drop_last());
        assert((a + b).drop_last() =~= a + b.drop_last());
        assert((a + b).last() == b.last());
    }
}

/// The message for a failed read of the effects of batch `batch`.
pub open spec fn batch_message(batch: u64) -> Seq<char> {
    "failed to retrieve effects for community at batch number "@ + decimal(batch as nat)
}

/// Whether `e` is the storage-layer error carrying `message` and the
/// category and status of `f`.
pub open spec fn is_storage_error(e: Error, message: Seq<char>, f: StorageFailure) -> bool {
    e matches Error::StorageLayerError(s) && s.message@ == message && s.category == f.category
        && s.status == f.status
}

fn fail(message: String, f: StorageFailure) -> (e: Error)
    ensures
        is_storage_error(e, message@, f),
{
    Error::StorageLayerError(
        crate::error::StorageLayerError { message, category: f.category, status: f.status },
    )
}

/// A refresh in progress: the snapshot with the effects applied so far.
pub struct LatestRefresh {
    id: CommunityId,
    community: Community,
    initial_version: SequenceId,
    batch: u64,
}

/// What the caller does after a step of the refresh.
pub enum RefreshStep {
    /// Read up to `limit` effects of `community_id` after `after` and hand
    /// them to [`LatestRefresh::on_effects`].
    FetchEffects { refresh: LatestRefresh, community_id: CommunityId, limit: usize, after: SequenceId },
    /// Persist the advanced snapshot and hand the outcome to [`finish_persist`].
    Persist(Community),
    /// The refresh is over.
    Done(Result<Option<Community>, Error>),
}

impl LatestRefresh {
    /// The snapshot with the effects applied so far.
    pub closed spec fn current(&self) -> CommunityModel {
        self.community@
    }

    /// The version of the snapshot the refresh started from.
    pub closed spec fn initial(&self) -> u64 {
        self.initial_version.0
    }

    /// The identifier the refresh was asked for, under which effects are read.
    pub closed spec fn id_spec(&self) -> CommunityId {
        self.id
    }

    /// The number of the next batch to read.
    pub closed spec fn next_batch(&self) -> u64 {
        self.batch
    }

    /// The invariant of a refresh in progress.
    pub closed spec fn wf(&self) -> bool {
        self.community.wf() && self.batch >= 1
    }

    /// Starts a refresh of the community `id` from the outcome of reading its
    /// latest stored snapshot.
    ///
    /// A failed read fails the refresh; a community that was never stored
    /// finishes it with `None`; otherwise the first batch of effects of `id`
    /// after the snapshot's version is requested.
    pub fn begin(id: CommunityId, latest: Result<Option<Community>, StorageFailure>) -> (step: RefreshStep)
        requires
            latest matches Ok(Some(c)) ==> c.wf(),
        ensures
            match latest {
                Err(f) => step matches RefreshStep::Done(Err(e)) && is_storage_error(
                    e,
                    "failed to retrieve latest version of community"@,
                    f,
                ),
                Ok(None) => step matches RefreshStep::Done(Ok(None)),
                Ok(Some(c)) => step matches RefreshStep::FetchEffects {
                    refresh,
                    community_id,
                    limit,
                    after,
                } && refresh.wf() && refresh.current() == c@ && refresh.initial() == c@.version
                    && refresh.next_batch() == 1 && refresh.id_spec() == id && community_id == id && limit
                    == EFFECTS_PAGE_SIZE && after.0 == c@.version,
            },
    {
        match latest {
            Err(f) => RefreshStep::Done(
                Err(fail(String::from_str("failed to retrieve latest version of community"), f)),
            ),
            Ok(None) => RefreshStep::Done(Ok(None)),
            Ok(Some(c)) => {
                let version = c.version();
                RefreshStep::FetchEffects {
                    refresh: LatestRefresh { id, community: c, initial_version: version, batch: 1 },
                    community_id: id,
                    limit: EFFECTS_PAGE_SIZE,
                    after: version,
                }
            },
        }
    }

    /// Continues the refresh with the outcome of reading a batch of effects.
    ///
    /// The batch is applied in order. The refresh goes on while a batch is full
    /// and advances the version; then the snapshot is persisted if its version
    /// moved since the start, and returned as it is otherwise. A failed read
    /// fails the refresh, naming the batch.
    pub fn on_effects(self, batch: Result<Vec<Effect>, StorageFailure>) -> (step: RefreshStep)
        requires
            self.wf(),
        ensures
            match batch {
                Err(f) => step matches RefreshStep::Done(Err(e)) && is_storage_error(
                    e,
                    batch_message(self.next_batch()),
                    f,
                ),
                Ok(b) => {
                    let c = apply_effect_seq(self.current(), b@);
                    let done = b@.len() < EFFECTS_PAGE_SIZE || c.version == self.current().version;
                    if !done {
                        step matches RefreshStep::FetchEffects { refresh, community_id, limit, after }
                            && refresh.wf() && refresh.current() == c && refresh.initial()
                            == self.initial() && refresh.next_batch() == (if self.next_batch()
                            == u64::MAX {
                            u64::MAX
                        } else {
                            (self.next_batch() + 1) as u64
                        }) && refresh.id_spec() == self.id_spec() && community_id == self.id_spec()
                            && limit == EFFECTS_PAGE_SIZE && after.0 == c.version
                    } else if c.version == self.initial() {
                        step matches RefreshStep::Done(Ok(Some(x))) && x.wf() && x@ == c
                    } else {
                        step matches RefreshStep::Persist(x) && x.wf() && x@ == c
                    }
                },
            },
    {
        let LatestRefresh { id, community, initial_version, batch: n } = self;
        match batch {
            Err(f) => {
                let mut message = String::from_str(
                    "failed to retrieve effects for community at batch number ",
                );
                push_decimal(&mut message, n);
                RefreshStep::Done(Err(fail(message, f)))
            },
            Ok(b) => {
                let mut community = community;
                let prev_version = community.version();
                let full = b.len() >= EFFECTS_PAGE_SIZE;
                community.apply_effects(b);
                let version = community.version();
                if full && version.0 != prev_version.0 {
                    RefreshStep::FetchEffects {
                        refresh: LatestRefresh {
                            id,
                            community,
                            initial_version,
                            batch: n.saturating_add(1),
                        },
                        community_id: id,
                        limit: EFFECTS_PAGE_SIZE,
                        after: version,
                    }
                } else if version.0 == initial_version.0 {
                    RefreshStep::Done(Ok(Some(community)))
                } else {
                    RefreshStep::Persist(community)
                }
            },
        }
    }
}

/// Finishes a refresh with the outcome of persisting the advanced snapshot:
/// the stored snapshot, or the failure to store it.
pub fn finish_persist(saved: Result<Community, StorageFailure>) -> (r: Result<Option<Community>, Error>)
    ensures
        match saved {
            Err(f) => r matches Err(e) && is_storage_error(
                e,
                "failed to persist updated community"@,
                f,
            ),
            Ok(c) => r == Ok::<Option<Community>, Error>(Some(c)),
        },
{
    match saved {
        Err(f) => Err(fail(String::from_str("failed to persist updated community"), f)),
        Ok(c) => Ok(Some(c)),
    }
}

} // verus!
