//! Keeping measurements across cycles.
//!
//! A [`RawMemoryProfiler`] holds the history of the cycles recorded so far, one
//! snapshot of the table per cycle, and the index of the storage segment that
//! the history is kept in. It is made from what the segment held, takes one
//! more snapshot at the end of a cycle, and hands out the history in its stored
//! form. Reading and writing the segment, and the text that stands for a
//! history there, are the caller's.

use vstd::prelude::*;
use crate::profiler::Profiler;
use crate::table::{Entry, ProfileId, ProfileTable, RawTable};

verus! {

/// Every table of `raws` has as many labels as rows.
pub open spec fn all_co_indexed(raws: Seq<RawTable>) -> bool {
    forall|i: int| 0 <= i < raws.len() ==> (#[trigger] raws[i]).co_indexed()
}

/// The history that a segment's content stands for. `stored` is what was read
/// and parsed, or nothing where the segment was absent or did not parse. One
/// table whose labels and rows differ in number spoils the whole content: the
/// history then starts empty, as it does where nothing was stored.
pub open spec fn recovered_history(stored: Option<Vec<RawTable>>) -> Seq<Seq<Entry>> {
    match stored {
        Some(raws) => if all_co_indexed(raws@) {
            Seq::new(raws@.len(), |i: int| raws@[i].entries())
        } else {
            Seq::empty()
        },
        None => Seq::empty(),
    }
}

/// The recorded cycles and the segment they are kept in.
pub struct RawMemoryProfiler {
    /// Index of the storage segment that the history is read from and saved to.
    pub memory_segment: u8,
    data: Vec<ProfileTable>,
}

impl RawMemoryProfiler {
    /// Every snapshot is a well-formed table.
    pub closed spec fn wf(&self) -> bool {
        forall|i: int| 0 <= i < self.data@.len() ==> (#[trigger] self.data@[i]).wf()
    }

    /// The index of the storage segment, as contracts speak of it.
    pub closed spec fn segment(&self) -> u8 {
        self.memory_segment
    }

    /// The snapshots recorded so far, oldest first.
    pub closed spec fn history(&self) -> Seq<Seq<Entry>> {
        Seq::new(self.data@.len(), |i: int| self.data@[i]@)
    }

    /// The profiler for the segment `memory_segment`, with the history that
    /// `stored` stands for.
    pub fn read_from_segment_or_default(memory_segment: u8, stored: Option<Vec<RawTable>>) -> (this:
        Self)
        ensures
            this.wf(),
            this.segment() == memory_segment,
            this.history() == recovered_history(stored),
    {
        let mut data: Vec<ProfileTable> = Vec::new();
        match stored {
            Some(raws) => {
                let ghost all = raws@;
                let mut sound = true;
                for raw in it: raws
                    invariant
                        it.seq() == all,
                        sound == all_co_indexed(all.take(it.index() as int)),
                        sound ==> data@.len() == it.index(),
                        forall|i: int| 0 <= i < data@.len() ==> (#[trigger] data@[i]).wf(),
                        sound ==> forall|i: int|
                            0 <= i < data@.len() ==> (#[trigger] data@[i])@ == all[i].entries(),
                {
                    let ghost k = it.index() as int;
                    proof {
                        assert(all.take(k + 1)[k] == all[k]);
                    }
                    match ProfileTable::from_raw(raw) {
                        Some(table) => {
                            if sound {
                                data.push(table);
                            }
                        },
                        None => {
                            sound = false;
                        },
                    }
                }
                proof {
                    assert(all.take(all.len() as int) == all);
                }
                if !sound {
                    data = Vec::new();
                }
            },
            None => {},
        }
        RawMemoryProfiler { memory_segment, data }
    }

    /// The snapshots recorded so far, oldest first.
    pub fn snapshots(&self) -> (tables: &Vec<ProfileTable>)
        requires
            self.wf(),
        ensures
            tables@.len() == self.history().len(),
            forall|i: int|
                0 <= i < tables@.len() ==> (#[trigger] tables@[i]).wf() && tables@[i]@
                    == self.history()[i],
    {
        &self.data
    }

    /// Ends a cycle: appends a deep copy of the live table to the history, then
    /// empties the live table and its interner for the next cycle.
    pub fn end_cycle(&mut self, profiler: &mut Profiler)
        requires
            old(self).wf(),
            old(profiler).wf(),
        ensures
            final(self).wf(),
            final(self).segment() == old(self).segment(),
            final(self).history() == old(self).history().push(old(profiler)@.table),
            final(profiler).wf(),
            final(profiler)@.table == Seq::<Entry>::empty(),
            final(profiler)@.ids == Map::<Seq<char>, ProfileId>::empty(),
    {
        let snapshot = profiler.table().clone();
        self.data.push(snapshot);
        profiler.clear();
    }

    /// A deep copy of the history in its stored form. Read back, it stands for
    /// the same history.
    pub fn to_raw(&self) -> (raws: Vec<RawTable>)
        requires
            self.wf(),
        ensures
            raws@.len() == self.history().len(),
            all_co_indexed(raws@),
            recovered_history(Some(raws)) == self.history(),
    {
        let mut raws: Vec<RawTable> = Vec::new();
        let mut i: usize = 0;
        while i < self.data.len()
            invariant
                self.wf(),
                i <= self.data@.len(),
                raws@.len() == i,
                all_co_indexed(raws@),
                forall|j: int| 0 <= j < i ==> (#[trigger] raws@[j]).entries() == self.data@[j]@,
            decreases self.data@.len() - i,
        {
            let raw = self.data[i].to_raw();
            raws.push(raw);
            i += 1;
        }
        raws
    }
}

impl Default for RawMemoryProfiler {
    /// The profiler for segment 0 with an empty history.
    fn default() -> (this: Self)
        ensures
            this.wf(),
            this.segment() == 0,
            this.history() == Seq::<Seq<Entry>>::empty(),
    {
        RawMemoryProfiler { memory_segment: 0, data: Vec::new() }
    }
}

} // verus!
