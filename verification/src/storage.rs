//! Per-widget state that persists across widget-tree rebuilds, keyed by `WidgetId`.
use std::collections::HashMap;
use vstd::prelude::*;
use crate::ids::WidgetId;

verus! {

broadcast use vstd::std_specs::hash::group_hash_axioms;

/// Calls `HashMap::get_mut`: a mutable reference to the value stored under
/// `key`, if any. Writes through the reference become the map's new entry for
/// `key`; nothing else in the map changes.
#[verifier::external_body]
fn map_get_mut<'a, S>(map: &'a mut HashMap<u64, S>, key: u64) -> (r: Option<&'a mut S>)
    ensures
        match r {
            Some(v) => {
                &&& old(map)@.contains_key(key)
                &&& *v == old(map)@[key]
                &&& final(map)@ == old(map)@.insert(key, *final(v))
            },
            None => {
                &&& !old(map)@.contains_key(key)
                &&& final(map)@ == old(map)@
            },
        },
{
    map.get_mut(&key)
}

/// Storage for widget state, keyed by `WidgetId`.
/// This allows state to persist across widget tree rebuilds.
#[derive(Debug)]
pub struct WidgetStateStorage<S> {
    states: HashMap<u64, S>,
}

impl<S> View for WidgetStateStorage<S> {
    /// The stored states, keyed by the widget identifier's value.
    type V = Map<u64, S>;

    closed spec fn view(&self) -> Map<u64, S> {
        self.states@
    }
}

impl<S> WidgetStateStorage<S> {
    /// An empty storage.
    pub fn new() -> (s: Self)
        ensures
            s@ == Map::<u64, S>::empty(),
    {
        WidgetStateStorage { states: HashMap::new() }
    }

    /// Get the state stored for a widget, storing `S::default()` first when
    /// there is none.
    pub fn get_or_default(&mut self, id: WidgetId) -> (r: S) where S: Default + Clone
        ensures
            old(self)@.contains_key(id.0) ==> {
                &&& final(self)@ == old(self)@
                &&& cloned::<S>(old(self)@[id.0], r)
            },
            !old(self)@.contains_key(id.0) ==> {
                &&& final(self)@.dom() == old(self)@.dom().insert(id.0)
                &&& final(self)@.remove(id.0) == old(self)@
                &&& call_ensures(S::default, (), final(self)@[id.0])
                &&& cloned::<S>(final(self)@[id.0], r)
            },
    {
        if !self.states.contains_key(&id.0) {
            let d = S::default();
            self.states.insert(id.0, d);
            assert(self.states@.remove(id.0) =~= old(self)@);
        }
        let stored = self.states.get(&id.0);
        match stored {
            Some(v) => v.clone(),
            None => {
                assert(false);
                S::default()
            },
        }
    }

    /// Set the state for a widget, replacing any previous one.
    pub fn set(&mut self, id: WidgetId, state: S)
        ensures
            final(self)@ == old(self)@.insert(id.0, state),
    {
        self.states.insert(id.0, state);
    }

    /// Get a reference to the state of a widget (None if there is none).
    pub fn get(&self, id: WidgetId) -> (r: Option<&S>)
        ensures
            match r {
                Some(v) => self@.contains_key(id.0) && *v == self@[id.0],
                None => !self@.contains_key(id.0),
            },
    {
        self.states.get(&id.0)
    }

    /// Get a mutable reference to the state of a widget (None if there is none).
    pub fn get_mut(&mut self, id: WidgetId) -> (r: Option<&mut S>)
        ensures
            match r {
                Some(v) => {
                    &&& old(self)@.contains_key(id.0)
                    &&& *v == old(self)@[id.0]
                    &&& final(self)@ == old(self)@.insert(id.0, *final(v))
                },
                None => {
                    &&& !old(self)@.contains_key(id.0)
                    &&& final(self)@ == old(self)@
                },
            },
    {
        map_get_mut(&mut self.states, id.0)
    }

    /// Remove the state of a widget.
    pub fn remove(&mut self, id: WidgetId)
        ensures
            final(self)@ == old(self)@.remove(id.0),
    {
        self.states.remove(&id.0);
    }

    /// Clear all state.
    pub fn clear(&mut self)
        ensures
            final(self)@ == Map::<u64, S>::empty(),
    {
        self.states.clear();
    }
}

impl<S> Default for WidgetStateStorage<S> {
    fn default() -> (s: Self)
        ensures
            s@ == Map::<u64, S>::empty(),
    {
        Self::new()
    }
}

/// Reading a widget's state gives back what was last written for it.
pub proof fn lemma_get_after_set<S>(before: Map<u64, S>, id: WidgetId, state: S)
    ensures
        before.insert(id.0, state).contains_key(id.0),
        before.insert(id.0, state)[id.0] == state,
{
}

/// Writing one widget's state leaves every other widget's state as it was.
pub proof fn lemma_set_keeps_others<S>(before: Map<u64, S>, id: WidgetId, state: S, other: WidgetId)
    requires
        other.0 != id.0,
    ensures
        before.insert(id.0, state).contains_key(other.0) == before.contains_key(other.0),
        before.contains_key(other.0) ==> before.insert(id.0, state)[other.0] == before[other.0],
{
}

} // verus!
