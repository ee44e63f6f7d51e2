//! Scope sentinels: one sample per measured scope.
//!
//! A sentinel is made when a scope is entered and released when the scope is
//! left. It remembers which row the scope belongs to and the resource level at
//! entry. Releasing it appends the cost of the scope to that row. A sentinel
//! cannot be copied and `release` consumes it, so no sentinel commits twice.

use vstd::prelude::*;
use crate::table::{with_sample, Entry, ProfileId, ProfileTable};

verus! {

/// The measurement of one scope that has been entered and not yet left.
#[derive(Debug)]
pub struct ProfileSentinel {
    id: ProfileId,
    cpu_at_start: u64,
}

impl ProfileSentinel {
    pub closed spec fn spec_id(&self) -> ProfileId {
        self.id
    }

    pub closed spec fn spec_cpu_at_start(&self) -> u64 {
        self.cpu_at_start
    }

    /// Starts a measurement for the row of `id`, at the resource level
    /// `cpu_at_start`. Whether `id` addresses a row is not asked here.
    pub fn new(id: ProfileId, cpu_at_start: u64) -> (sentinel: Self)
        ensures
            sentinel.id() == id,
            sentinel.cpu_at_start() == cpu_at_start,
    {
        ProfileSentinel { id, cpu_at_start }
    }

    /// The row that the measurement belongs to.
    #[verifier::when_used_as_spec(spec_id)]
    pub fn id(&self) -> (id: ProfileId)
        ensures
            id == self.spec_id(),
    {
        self.id
    }

    /// The resource level at which the measurement started.
    #[verifier::when_used_as_spec(spec_cpu_at_start)]
    pub fn cpu_at_start(&self) -> (level: u64)
        ensures
            level == self.spec_cpu_at_start(),
    {
        self.cpu_at_start
    }

    /// Ends the measurement: appends `delta`, the cost of the scope, to the row
    /// of the sentinel's identifier. The row must exist.
    pub fn release(self, table: &mut ProfileTable, delta: u64)
        requires
            old(table).wf(),
            self.id().id < old(table)@.len(),
        ensures
            final(table).wf(),
            final(table)@ == with_sample(old(table)@, self.id(), delta),
    {
        match table.get_data_mut(self.id) {
            Some(row) => {
                row.cpu_per_call.push(delta);
            },
            None => {},
        }
    }
}

/// Starts a measurement for the row of `id` at the resource level `cpu_at_start`.
pub fn new_sentinel(id: ProfileId, cpu_at_start: u64) -> (sentinel: ProfileSentinel)
    ensures
        sentinel.id() == id,
        sentinel.cpu_at_start() == cpu_at_start,
{
    ProfileSentinel::new(id, cpu_at_start)
}

/// The release of one sentinel: the row it belongs to and the cost it commits.
pub struct Release {
    pub id: ProfileId,
    pub delta: u64,
}

/// The table `table` after the releases `releases`, first to last.
pub open spec fn released(table: Seq<Entry>, releases: Seq<Release>) -> Seq<Entry>
    decreases releases.len(),
{
    if releases.len() == 0 {
        table
    } else {
        with_sample(
            released(table, releases.drop_last()),
            releases.last().id,
            releases.last().delta,
        )
    }
}

/// The costs that the releases for `id` among `releases` commit, first to last.
pub open spec fn deltas_for(releases: Seq<Release>, id: ProfileId) -> Seq<u64>
    decreases releases.len(),
{
    if releases.len() == 0 {
        Seq::empty()
    } else if releases.last().id == id {
        deltas_for(releases.drop_last(), id).push(releases.last().delta)
    } else {
        deltas_for(releases.drop_last(), id)
    }
}

/// Every release appends exactly one sample, to the row of its own identifier:
/// after any number of releases, in any order of identifiers, each row holds
/// what it held before, followed by the costs of the releases for that row in
/// the order in which they were released. Labels and the number of rows stay.
pub proof fn lemma_releases_accumulate(table: Seq<Entry>, releases: Seq<Release>)
    requires
        forall|k: int| 0 <= k < releases.len() ==> (#[trigger] releases[k]).id.id < table.len(),
    ensures
        released(table, releases).len() == table.len(),
        forall|id: ProfileId|
            id.id < table.len() ==> {
                &&& (#[trigger] released(table, releases)[id.id as int]).label
                    == table[id.id as int].label
                &&& released(table, releases)[id.id as int].samples
                    == table[id.id as int].samples + deltas_for(releases, id)
            },
    decreases releases.len(),
{
    if releases.len() > 0 {
        let init = releases.drop_last();
        let last = releases.last();
        lemma_releases_accumulate(table, init);
        let after = released(table, releases);
        assert forall|id: ProfileId| id.id < table.len() implies {
            &&& (#[trigger] after[id.id as int]).label == table[id.id as int].label
            &&& after[id.id as int].samples == table[id.id as int].samples + deltas_for(
                releases,
                id,
            )
        } by {
            if last.id == id {
                assert(after[id.id as int].samples == table[id.id as int].samples
                    + deltas_for(releases, id));
            }
        }
    }
}

/// `n` releases that all belong to one row make that row longer by `n`: a row
/// that was empty then has length `n`.
pub proof fn lemma_same_row_count(table: Seq<Entry>, releases: Seq<Release>, id: ProfileId)
    requires
        id.id < table.len(),
        forall|k: int| 0 <= k < releases.len() ==> (#[trigger] releases[k]).id == id,
    ensures
        released(table, releases)[id.id as int].samples.len() == table[id.id as int].samples.len()
            + releases.len(),
{
    lemma_releases_accumulate(table, releases);
    lemma_deltas_of_one_row(releases, id);
}

/// Where every release belongs to `id`, each of them contributes one cost.
proof fn lemma_deltas_of_one_row(releases: Seq<Release>, id: ProfileId)
    requires
        forall|k: int| 0 <= k < releases.len() ==> (#[trigger] releases[k]).id == id,
    ensures
        deltas_for(releases, id).len() == releases.len(),
    decreases releases.len(),
{
    if releases.len() > 0 {
        lemma_deltas_of_one_row(releases.drop_last(), id);
    }
}

} // verus!
