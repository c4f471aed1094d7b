//! Tables keyed by id, and queues of frames: the storage the registries are built from,
//! described by what it holds rather than by how.

use std::collections::HashMap;
use vstd::prelude::*;
use vstd::std_specs::iter::IteratorSpec;
use crate::frame::{frame_models, Frame, FrameModel};

verus! {

broadcast use vstd::std_specs::hash::group_hash_axioms;

/// A map from ids to values, seen as the map from ids to the values' views.
pub struct Table<T> {
    entries: HashMap<u64, T>,
}

impl<T: View> View for Table<T> {
    type V = Map<u64, T::V>;

    closed spec fn view(&self) -> Map<u64, T::V> {
        self.entries@.map_values(|value: T| value@)
    }
}

impl<T: View> Table<T> {
    /// The table without entries.
    pub fn new() -> (table: Self)
        ensures
            table@ == Map::<u64, T::V>::empty(),
    {
        let table = Table { entries: HashMap::new() };
        assert(table@ =~= Map::<u64, T::V>::empty());
        table
    }

    /// Whether `id` has an entry.
    pub fn contains_key(&self, id: u64) -> (known: bool)
        ensures
            known == self@.contains_key(id),
    {
        self.entries.contains_key(&id)
    }

    /// The entry of `id`.
    pub fn get(&self, id: u64) -> (entry: Option<&T>)
        ensures
            match entry {
                Some(value) => self@.contains_key(id) && value@ == self@[id],
                None => !self@.contains_key(id),
            },
    {
        self.entries.get(&id)
    }

    /// Set the entry of `id`, replacing one it had.
    pub fn insert(&mut self, id: u64, value: T)
        ensures
            final(self)@ == old(self)@.insert(id, value@),
    {
        let _ = self.entries.insert(id, value);
        assert(self@ =~= old(self)@.insert(id, value@));
    }

    /// Take the entry of `id` out.
    pub fn remove(&mut self, id: u64) -> (entry: Option<T>)
        ensures
            final(self)@ == old(self)@.remove(id),
            match entry {
                Some(value) => old(self)@.contains_key(id) && value@ == old(self)@[id],
                None => !old(self)@.contains_key(id),
            },
    {
        let entry = self.entries.remove(&id);
        assert(self@ =~= old(self)@.remove(id));
        entry
    }

    /// Take every entry out.
    pub fn clear(&mut self)
        ensures
            final(self)@ == Map::<u64, T::V>::empty(),
    {
        self.entries.clear();
        assert(self@ =~= Map::<u64, T::V>::empty());
    }

    /// The ids with an entry, each once, in no particular order.
    pub fn keys(&self) -> (ids: Vec<u64>)
        ensures
            ids@.no_duplicates(),
            forall|id: u64| ids@.contains(id) <==> self@.contains_key(id),
    {
        let mut ids: Vec<u64> = Vec::new();
        for key in it: self.entries.keys()
            invariant
                ids@.len() == it.index(),
                forall|i: int| 0 <= i < ids@.len() ==> ids@[i] == *it.seq()[i],
                it.seq() == self.entries.keys().remaining(),
        {
            ids.push(*key);
        }
        assert(ids@ =~= self.entries.keys().remaining().unref());
        assert forall|id: u64| ids@.contains(id) <==> self@.contains_key(id) by {
            assert(ids@.to_set().contains(id) == ids@.contains(id));
        }
        ids
    }
}

/// Frames waiting in order, seen as what the frames hold.
pub struct FrameQueue {
    pub frames: Vec<Frame>,
}

impl View for FrameQueue {
    type V = Seq<FrameModel>;

    open spec fn view(&self) -> Seq<FrameModel> {
        frame_models(self.frames@)
    }
}

impl FrameQueue {
    /// The queue without frames.
    pub fn new() -> (queue: Self)
        ensures
            queue@ == Seq::<FrameModel>::empty(),
    {
        let queue = FrameQueue { frames: Vec::new() };
        assert(queue@ =~= Seq::<FrameModel>::empty());
        queue
    }

    /// Put a frame at the end.
    pub fn push(&mut self, frame: Frame)
        ensures
            final(self)@ == old(self)@.push(frame@),
    {
        self.frames.push(frame);
        assert(self@ =~= old(self)@.push(frame@));
    }

    /// Take all frames out, in order.
    pub fn take(&mut self) -> (frames: Vec<Frame>)
        ensures
            final(self)@ == Seq::<FrameModel>::empty(),
            frame_models(frames@) == old(self)@,
    {
        let mut frames: Vec<Frame> = Vec::new();
        core::mem::swap(&mut frames, &mut self.frames);
        assert(self@ =~= Seq::<FrameModel>::empty());
        frames
    }
}

} // verus!
