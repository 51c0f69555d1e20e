//! The connection registry: which connections are live, and how to reach them.

use std::collections::HashMap;
use vstd::prelude::*;

verus! {

/// Identifies one live connection. The transport assigns it; the broker only
/// compares and orders it.
pub type ConnectionId = usize;

/// Maps each registered connection to the handle that sends to it.
pub struct ConnectionRegistry {
    handles: HashMap<ConnectionId, ws::Sender>,
}

impl View for ConnectionRegistry {
    type V = Map<ConnectionId, ws::Sender>;

    closed spec fn view(&self) -> Map<ConnectionId, ws::Sender> {
        self.handles@
    }
}

impl ConnectionRegistry {
    /// A registry with no connection in it.
    pub fn new() -> (registry: ConnectionRegistry)
        ensures
            registry@ == Map::<ConnectionId, ws::Sender>::empty(),
    {
        ConnectionRegistry { handles: HashMap::new() }
    }

    /// Records `handle` for `id`. A handle already recorded for `id` is
    /// replaced.
    pub fn add(&mut self, id: ConnectionId, handle: ws::Sender)
        ensures
            final(self)@ == old(self)@.insert(id, handle),
    {
        self.handles.insert(id, handle);
    }

    /// Forgets `id`. Does nothing if `id` is not registered.
    pub fn remove(&mut self, id: ConnectionId)
        ensures
            final(self)@ == old(self)@.remove(id),
    {
        self.handles.remove(&id);
    }

    /// The handle recorded for `id`, if there is one.
    pub fn lookup(&self, id: ConnectionId) -> (found: Option<&ws::Sender>)
        ensures
            found == (if self@.contains_key(id) {
                Some(&self@[id])
            } else {
                None
            }),
    {
        self.handles.get(&id)
    }
}

} // verus!
