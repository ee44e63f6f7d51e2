//! The sample table: one labelled, append-only row of samples per call site.
//!
//! A sample is a measured cost, held as the 64 bits of its IEEE 754 binary64
//! encoding. The table stores and returns these bits and never does arithmetic
//! on them.

use vstd::prelude::*;

verus! {

/// Handle of one row of a [`ProfileTable`]: the row's position in the table.
#[derive(Clone, Copy, Debug, PartialEq, Eq, Structural)]
pub struct ProfileId {
    pub id: usize,
}

/// The samples measured for one call site, oldest first.
#[derive(Debug)]
pub struct ProfileRow {
    pub cpu_per_call: Vec<u64>,
}

impl View for ProfileRow {
    type V = Seq<u64>;

    open spec fn view(&self) -> Seq<u64> {
        self.cpu_per_call@
    }
}

impl Default for ProfileRow {
    fn default() -> (row: Self)
        ensures
            row@ == Seq::<u64>::empty(),
    {
        ProfileRow { cpu_per_call: Vec::new() }
    }
}

impl Clone for ProfileRow {
    fn clone(&self) -> (row: Self)
        ensures
            row@ == self@,
    {
        ProfileRow { cpu_per_call: self.cpu_per_call.clone() }
    }
}

/// What a table holds for one call site: its name and its samples.
pub struct Entry {
    pub label: Seq<char>,
    pub samples: Seq<u64>,
}

/// The table `table` with one more call site, named `name` and not yet measured.
pub open spec fn with_entity(table: Seq<Entry>, name: Seq<char>) -> Seq<Entry> {
    table.push(Entry { label: name, samples: Seq::empty() })
}

/// The table `table` with `sample` appended to the row of `id`.
pub open spec fn with_sample(table: Seq<Entry>, id: ProfileId, sample: u64) -> Seq<Entry>
    recommends
        id.id < table.len(),
{
    table.update(
        id.id as int,
        Entry {
            label: table[id.id as int].label,
            samples: table[id.id as int].samples.push(sample),
        },
    )
}

/// The label that `id` finds in `table`, if `id` addresses a row of it.
pub open spec fn label_of(table: Seq<Entry>, id: ProfileId) -> Option<Seq<char>> {
    if id.id < table.len() {
        Some(table[id.id as int].label)
    } else {
        None
    }
}

/// The samples that `id` finds in `table`, if `id` addresses a row of it.
pub open spec fn samples_of(table: Seq<Entry>, id: ProfileId) -> Option<Seq<u64>> {
    if id.id < table.len() {
        Some(table[id.id as int].samples)
    } else {
        None
    }
}

/// The table `table` after one [`with_entity`] for each of `names`, first to last.
pub open spec fn with_entities(table: Seq<Entry>, names: Seq<Seq<char>>) -> Seq<Entry>
    decreases names.len(),
{
    if names.len() == 0 {
        table
    } else {
        with_entity(with_entities(table, names.drop_last()), names.last())
    }
}

/// A table as it is stored: labels and rows as two plain lists, of which
/// nothing says that they have one length.
#[derive(Debug)]
pub struct RawTable {
    pub labels: Vec<String>,
    pub data: Vec<ProfileRow>,
}

impl RawTable {
    /// The two lists have one length, so that they stand for a table.
    pub open spec fn co_indexed(&self) -> bool {
        self.labels@.len() == self.data@.len()
    }

    /// The call sites that the two lists hold, row by row.
    pub open spec fn entries(&self) -> Seq<Entry> {
        Seq::new(
            self.data@.len(),
            |i: int| Entry { label: self.labels@[i]@, samples: self.data@[i]@ },
        )
    }
}

/// Labels and rows, co-indexed by [`ProfileId`].
#[derive(Debug)]
pub struct ProfileTable {
    labels: Vec<String>,
    data: Vec<ProfileRow>,
}

impl View for ProfileTable {
    type V = Seq<Entry>;

    closed spec fn view(&self) -> Seq<Entry> {
        Seq::new(
            self.data@.len(),
            |i: int| Entry { label: self.labels@[i]@, samples: self.data@[i]@ },
        )
    }
}

impl ProfileTable {
    /// Every row has its label: the two sequences have one length.
    pub closed spec fn wf(&self) -> bool {
        self.labels@.len() == self.data@.len()
    }

    /// An empty table.
    pub fn new() -> (table: Self)
        ensures
            table.wf(),
            table@ == Seq::<Entry>::empty(),
    {
        ProfileTable { labels: Vec::new(), data: Vec::new() }
    }

    /// Number of rows, which is also the number of labels.
    pub fn len(&self) -> (n: usize)
        requires
            self.wf(),
        ensures
            n == self@.len(),
    {
        self.data.len()
    }

    /// Empties the table. No identifier issued before addresses a row afterwards.
    pub fn clear(&mut self)
        ensures
            final(self).wf(),
            final(self)@ == Seq::<Entry>::empty(),
            forall|id: ProfileId|
                label_of(final(self)@, id) is None && samples_of(final(self)@, id) is None,
    {
        self.labels.clear();
        self.data.clear();
    }

    /// Appends a row for `name`, whether or not a row with that label exists,
    /// and returns the new row's position.
    pub fn add_entity(&mut self, name: String) -> (id: ProfileId)
        requires
            old(self).wf(),
        ensures
            final(self).wf(),
            id.id == old(self)@.len(),
            final(self)@ == with_entity(old(self)@, name@),
    {
        let id = self.data.len();
        self.labels.push(name);
        self.data.push(ProfileRow::default());
        ProfileId { id }
    }

    /// The label of the row that `id` addresses, or nothing if there is no such row.
    pub fn get_label<'a>(&'a self, id: ProfileId) -> (label: Option<&'a String>)
        requires
            self.wf(),
        ensures
            match label {
                Some(s) => label_of(self@, id) == Some(s@),
                None => label_of(self@, id) is None,
            },
    {
        if id.id < self.labels.len() {
            Some(&self.labels[id.id])
        } else {
            None
        }
    }

    /// The row that `id` addresses, or nothing if there is no such row.
    pub fn get_data<'a>(&'a self, id: ProfileId) -> (row: Option<&'a ProfileRow>)
        requires
            self.wf(),
        ensures
            match row {
                Some(r) => samples_of(self@, id) == Some(r@),
                None => samples_of(self@, id) is None,
            },
    {
        if id.id < self.data.len() {
            Some(&self.data[id.id])
        } else {
            None
        }
    }

    /// The row that `id` addresses, for writing, or nothing if there is no such
    /// row. What the caller leaves in the row is what the table then holds for
    /// `id`; labels and other rows stay as they are.
    pub fn get_data_mut<'a>(&'a mut self, id: ProfileId) -> (row: Option<&'a mut ProfileRow>)
        requires
            old(self).wf(),
        ensures
            final(self).wf(),
            match row {
                Some(r) => {
                    &&& samples_of(old(self)@, id) == Some(r@)
                    &&& final(self)@ == old(self)@.update(
                        id.id as int,
                        Entry { label: old(self)@[id.id as int].label, samples: final(r)@ },
                    )
                },
                None => samples_of(old(self)@, id) is None && final(self)@ == old(self)@,
            },
    {
        if id.id < self.data.len() {
            Some(&mut self.data[id.id])
        } else {
            None
        }
    }
}

impl ProfileTable {
    /// The table that `raw` stands for, or nothing if its two lists differ in length.
    pub fn from_raw(raw: RawTable) -> (table: Option<Self>)
        ensures
            match table {
                Some(t) => raw.co_indexed() && t.wf() && t@ == raw.entries(),
                None => !raw.co_indexed(),
            },
    {
        if raw.labels.len() == raw.data.len() {
            Some(ProfileTable { labels: raw.labels, data: raw.data })
        } else {
            None
        }
    }

    /// A deep copy of the table in its stored form.
    pub fn to_raw(&self) -> (raw: RawTable)
        requires
            self.wf(),
        ensures
            raw.co_indexed(),
            raw.entries() == self@,
    {
        RawTable { labels: self.labels.clone(), data: self.data.clone() }
    }
}

impl Default for ProfileTable {
    fn default() -> (table: Self)
        ensures
            table.wf(),
            table@ == Seq::<Entry>::empty(),
    {
        ProfileTable::new()
    }
}

impl Clone for ProfileTable {
    /// A deep copy: later changes to either table leave the other as it is.
    fn clone(&self) -> (table: Self)
        ensures
            self.wf() ==> table.wf() && table@ == self@,
    {
        let labels = self.labels.clone();
        let data = self.data.clone();
        ProfileTable { labels, data }
    }
}

/// Entities added one after another get consecutive identifiers: on a table of
/// `n` rows the call number `k`, counted from 0, finds `n + k` rows and so
/// returns `n + k`; on an empty table the identifiers are 0, 1, 2 and so on.
/// After all the calls each identifier finds the name that its call was given
/// and an empty row, and every row that was there before is as it was.
pub proof fn lemma_add_entity_sequence(table: Seq<Entry>, names: Seq<Seq<char>>)
    ensures
        forall|k: int|
            0 <= k <= names.len() ==> (#[trigger] with_entities(table, names.take(k))).len()
                == table.len() + k,
        with_entities(table, names).len() == table.len() + names.len(),
        forall|id: ProfileId|
            table.len() <= id.id < table.len() + names.len() ==> {
                &&& #[trigger] label_of(with_entities(table, names), id) == Some(
                    names[id.id - table.len()],
                )
                &&& samples_of(with_entities(table, names), id) == Some(Seq::<u64>::empty())
            },
        forall|i: int| 0 <= i < table.len() ==> with_entities(table, names)[i] == table[i],
    decreases names.len(),
{
    if names.len() > 0 {
        let init = names.drop_last();
        lemma_add_entity_sequence(table, init);
        assert forall|k: int| 0 <= k <= names.len() implies (#[trigger] with_entities(
            table,
            names.take(k),
        )).len() == table.len() + k by {
            if k < names.len() {
                assert(names.take(k) == init.take(k));
            } else {
                assert(names.take(k) == names);
            }
        }
        let all = with_entities(table, names);
        assert forall|id: ProfileId|
            table.len() <= id.id < table.len() + names.len() implies {
            &&& #[trigger] label_of(all, id) == Some(names[id.id - table.len()])
            &&& samples_of(all, id) == Some(Seq::<u64>::empty())
        } by {
            if id.id < table.len() + init.len() {
                assert(label_of(with_entities(table, init), id) == Some(
                    init[id.id - table.len()],
                ));
            }
        }
    }
}

} // verus!
