//! The registry of the live streams of one control connection.

use crate::ids::StreamId;
use std::collections::HashMap;
use vstd::prelude::*;
use vstd::std_specs::hash::*;
use vstd::std_specs::iter::IteratorSpec;

verus! {

broadcast use vstd::std_specs::hash::group_hash_axioms;

/// The registry of the live streams of one control connection: a map from
/// the id of each live stream to whether its grace period is running. An id
/// is registered by the first data for it and stays until its grace period
/// has run out or its forwarding target has failed.
#[derive(Debug)]
pub struct ActiveStreams {
    live: HashMap<u64, bool>,
}

impl View for ActiveStreams {
    type V = Map<u64, bool>;

    closed spec fn view(&self) -> Map<u64, bool> {
        self.live@
    }
}

impl ActiveStreams {
    /// A registry without streams.
    pub fn new() -> (streams: ActiveStreams)
        ensures
            streams@ == Map::<u64, bool>::empty(),
    {
        ActiveStreams { live: HashMap::new() }
    }

    /// Whether `id` is live.
    pub fn contains(&self, id: StreamId) -> (r: bool)
        ensures
            r == self@.contains_key(id.0),
    {
        self.live.contains_key(&id.0)
    }

    /// Whether `id` is live and its grace period is running.
    pub fn is_closing(&self, id: StreamId) -> (r: bool)
        ensures
            r == (self@.contains_key(id.0) && self@[id.0]),
    {
        match self.live.get(&id.0) {
            Some(closing) => *closing,
            None => false,
        }
    }

    /// Registers `id` unless it is live already, and says whether it did.
    pub fn register(&mut self, id: StreamId) -> (added: bool)
        ensures
            added == !old(self)@.contains_key(id.0),
            final(self)@ == if added {
                old(self)@.insert(id.0, false)
            } else {
                old(self)@
            },
    {
        if self.live.contains_key(&id.0) {
            false
        } else {
            self.live.insert(id.0, false);
            true
        }
    }

    /// Starts the grace period of `id`, and says whether it did: not for an
    /// id that is not live, nor for one whose grace period is running.
    pub fn start_closing(&mut self, id: StreamId) -> (started: bool)
        ensures
            started == (old(self)@.contains_key(id.0) && !old(self)@[id.0]),
            final(self)@ == if old(self)@.contains_key(id.0) {
                old(self)@.insert(id.0, true)
            } else {
                old(self)@
            },
    {
        match self.live.insert(id.0, true) {
            Some(was) => !was,
            None => {
                self.live.remove(&id.0);
                proof {
                    assert(self@ =~= old(self)@);
                }
                false
            },
        }
    }

    /// Forgets `id`, and says whether it was live.
    pub fn remove(&mut self, id: StreamId) -> (removed: bool)
        ensures
            removed == old(self)@.contains_key(id.0),
            final(self)@ == old(self)@.remove(id.0),
    {
        self.live.remove(&id.0).is_some()
    }

    /// Forgets every stream and hands back the ids that were live, each
    /// once, in no particular order.
    pub fn drain(&mut self) -> (ids: Vec<StreamId>)
        ensures
            final(self)@ == Map::<u64, bool>::empty(),
            ids@.no_duplicates(),
            forall|id: u64| old(self)@.contains_key(id) <==> ids@.contains(StreamId(id)),
    {
        let ghost keys = spec_keys_iter(&self.live).remaining();
        let mut ids: Vec<StreamId> = Vec::new();
        for key in iter: self.live.keys()
            invariant
                iter.seq() == keys,
                ids@.len() == iter.index(),
                forall|j: int| 0 <= j < ids@.len() ==> (#[trigger] ids@[j]).0 == *keys[j],
        {
            ids.push(StreamId(*key));
        }
        proof {
            assert forall|id: u64| old(self)@.contains_key(id) <==> ids@.contains(
                StreamId(id),
            ) by {
                if old(self)@.contains_key(id) {
                    assert(keys.unref().to_set().contains(id));
                    let j = choose|j: int| 0 <= j < keys.unref().len() && keys.unref()[j] == id;
                    assert(ids@[j] == StreamId(id));
                }
                if ids@.contains(StreamId(id)) {
                    let j = choose|j: int| 0 <= j < ids@.len() && ids@[j] == StreamId(id);
                    assert(keys.unref()[j] == id);
                    assert(keys.unref().to_set().contains(id));
                }
            }
        }
        self.live.clear();
        ids
    }
}

} // verus!
