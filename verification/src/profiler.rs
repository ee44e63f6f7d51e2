//! The live state of one cycle: a table and the interner of its call-site names.
//!
//! The interner gives every name one row. The first time a name is resolved a
//! row is added for it; every later time the same identifier comes back. Table
//! and interner are owned together and cleared together, so that an interned
//! name always addresses a row that carries it as its label.

use vstd::prelude::*;
use vstd::hash_map::StringHashMap;
use crate::sentinel::ProfileSentinel;
use crate::table::{label_of, with_entity, with_sample, Entry, ProfileId, ProfileTable};

verus! {

/// What a [`Profiler`] holds: the rows, and the identifier of each interned name.
pub struct ProfilerView {
    pub table: Seq<Entry>,
    pub ids: Map<Seq<char>, ProfileId>,
}

/// Every interned name addresses a row whose label is that name.
pub open spec fn paired(p: ProfilerView) -> bool {
    forall|name: Seq<char>| #[trigger]
        p.ids.contains_key(name) ==> label_of(p.table, p.ids[name]) == Some(name)
}

/// The identifier that resolving `name` returns in the state `p`.
pub open spec fn resolved_id(p: ProfilerView, name: Seq<char>) -> ProfileId {
    if p.ids.contains_key(name) {
        p.ids[name]
    } else {
        ProfileId { id: p.table.len() as usize }
    }
}

/// The state that resolving `name` leaves behind in the state `p`.
pub open spec fn resolved(p: ProfilerView, name: Seq<char>) -> ProfilerView {
    if p.ids.contains_key(name) {
        p
    } else {
        ProfilerView {
            table: with_entity(p.table, name),
            ids: p.ids.insert(name, ProfileId { id: p.table.len() as usize }),
        }
    }
}

/// A table with the interner of its names.
pub struct Profiler {
    table: ProfileTable,
    ids: StringHashMap<ProfileId>,
}

impl View for Profiler {
    type V = ProfilerView;

    closed spec fn view(&self) -> ProfilerView {
        ProfilerView { table: self.table@, ids: self.ids@ }
    }
}

impl Profiler {
    /// The table is well formed and the interner is paired with it.
    pub closed spec fn wf(&self) -> bool {
        self.table.wf() && paired(self@)
    }

    /// An empty table with an empty interner.
    pub fn new() -> (profiler: Self)
        ensures
            profiler.wf(),
            profiler@.table == Seq::<Entry>::empty(),
            profiler@.ids == Map::<Seq<char>, ProfileId>::empty(),
    {
        Profiler { table: ProfileTable::new(), ids: StringHashMap::new() }
    }

    /// The table, for reading.
    pub fn table(&self) -> (table: &ProfileTable)
        requires
            self.wf(),
        ensures
            table.wf(),
            table@ == self@.table,
            paired(self@),
    {
        &self.table
    }

    /// The identifier of `name`: the one it was given when it was first
    /// resolved, or that of a row added for it now.
    pub fn resolve(&mut self, name: &str) -> (id: ProfileId)
        requires
            old(self).wf(),
        ensures
            final(self).wf(),
            id == resolved_id(old(self)@, name@),
            final(self)@ == resolved(old(self)@, name@),
            label_of(final(self)@.table, id) == Some(name@),
    {
        let known = match self.ids.get(name) {
            Some(id) => Some(*id),
            None => None,
        };
        match known {
            Some(id) => id,
            None => {
                let id = self.table.add_entity(name.to_owned());
                self.ids.insert(name.to_owned(), id);
                proof {
                    lemma_resolved_paired(old(self)@, name@);
                }
                id
            },
        }
    }

    /// Releases `sentinel` into the table: appends `delta`, the cost of its
    /// scope, to its row. The row must exist.
    pub fn commit(&mut self, sentinel: ProfileSentinel, delta: u64)
        requires
            old(self).wf(),
            sentinel.id().id < old(self)@.table.len(),
        ensures
            final(self).wf(),
            final(self)@.ids == old(self)@.ids,
            final(self)@.table == with_sample(old(self)@.table, sentinel.id(), delta),
    {
        sentinel.release(&mut self.table, delta);
    }

    /// Empties table and interner together.
    pub fn clear(&mut self)
        ensures
            final(self).wf(),
            final(self)@.table == Seq::<Entry>::empty(),
            final(self)@.ids == Map::<Seq<char>, ProfileId>::empty(),
    {
        self.table.clear();
        self.ids.clear();
    }
}

/// Starts a measurement for the call site `name` at the resource level
/// `cpu_at_start`: resolves the name, adding a row if it is new, and returns a
/// sentinel for its row.
pub fn create_sentinel(profiler: &mut Profiler, name: &str, cpu_at_start: u64) -> (sentinel:
    ProfileSentinel)
    requires
        old(profiler).wf(),
    ensures
        final(profiler).wf(),
        final(profiler)@ == resolved(old(profiler)@, name@),
        sentinel.id() == resolved_id(old(profiler)@, name@),
        sentinel.cpu_at_start() == cpu_at_start,
        label_of(final(profiler)@.table, sentinel.id()) == Some(name@),
{
    let id = profiler.resolve(name);
    ProfileSentinel::new(id, cpu_at_start)
}

/// Resolving keeps the interner paired with its table, and the identifier it
/// returns addresses a row labelled with the name.
pub proof fn lemma_resolved_paired(p: ProfilerView, name: Seq<char>)
    requires
        paired(p),
        p.table.len() <= usize::MAX,
    ensures
        paired(resolved(p, name)),
        label_of(resolved(p, name).table, resolved_id(p, name)) == Some(name),
{
}

/// A name that is resolved twice gets the same identifier both times, and the
/// second call changes nothing. The two calls together add one row if the name
/// was not interned before, and none if it was.
pub proof fn lemma_resolve_twice(p: ProfilerView, name: Seq<char>)
    ensures
        resolved_id(resolved(p, name), name) == resolved_id(p, name),
        resolved(resolved(p, name), name) == resolved(p, name),
        resolved(p, name).table.len() == p.table.len() + if p.ids.contains_key(name) {
            0int
        } else {
            1int
        },
{
}

} // verus!
