//! The channel registry: which connections are subscribed to which channel.

use crate::error::ServerError;
use crate::registry::ConnectionId;
use std::collections::BTreeSet;
use vstd::prelude::*;
use vstd::std_specs::cmp::OrdSpec;
use vstd::std_specs::iter::IteratorSpec;

verus! {

/// The subscribers of `name`: nobody, if no such channel exists.
pub open spec fn subscribers_of(
    channels: Map<Seq<char>, Set<ConnectionId>>,
    name: Seq<char>,
) -> Set<ConnectionId> {
    if channels.contains_key(name) {
        channels[name]
    } else {
        Set::empty()
    }
}

/// `channels` after `id` has joined `name`.
pub open spec fn with_subscriber(
    channels: Map<Seq<char>, Set<ConnectionId>>,
    name: Seq<char>,
    id: ConnectionId,
) -> Map<Seq<char>, Set<ConnectionId>> {
    channels.insert(name, subscribers_of(channels, name).insert(id))
}

/// `channels` after `id` has left `name`. The channel stays, even if empty.
pub open spec fn without_subscriber(
    channels: Map<Seq<char>, Set<ConnectionId>>,
    name: Seq<char>,
    id: ConnectionId,
) -> Map<Seq<char>, Set<ConnectionId>> {
    channels.insert(name, subscribers_of(channels, name).remove(id))
}

/// `channels` after `id` has left every channel.
pub open spec fn without_connection(
    channels: Map<Seq<char>, Set<ConnectionId>>,
    id: ConnectionId,
) -> Map<Seq<char>, Set<ConnectionId>> {
    channels.map_values(|subscribers: Set<ConnectionId>| subscribers.remove(id))
}

/// Whether `ids` runs from the smallest id to the largest, each id once.
pub open spec fn ascending(ids: Seq<ConnectionId>) -> bool {
    forall|i: int, j: int| 0 <= i < j < ids.len() ==> ids[i] < ids[j]
}

/// One channel: its name and the connections subscribed to it.
struct Channel {
    name: String,
    subscribers: BTreeSet<ConnectionId>,
}

spec fn distinct_names(channels: Seq<Channel>) -> bool {
    forall|i: int, j: int|
        0 <= i < j < channels.len() ==> channels[i].name@ != channels[j].name@
}

spec fn names_kept(before: Seq<Channel>, after: Seq<Channel>) -> bool {
    &&& before.len() == after.len()
    &&& forall|i: int| 0 <= i < before.len() ==> before[i].name@ == after[i].name@
}

spec fn has_channel(channels: Seq<Channel>, name: Seq<char>) -> bool {
    exists|i: int| 0 <= i < channels.len() && channels[i].name@ == name
}

spec fn slot_of(channels: Seq<Channel>, name: Seq<char>) -> int {
    choose|i: int| 0 <= i < channels.len() && channels[i].name@ == name
}

spec fn model(channels: Seq<Channel>) -> Map<Seq<char>, Set<ConnectionId>> {
    Map::new(
        |name: Seq<char>| has_channel(channels, name),
        |name: Seq<char>| channels[slot_of(channels, name)].subscribers@,
    )
}

/// Where names differ, the channel at `i` is the one the model files under
/// its name.
proof fn lemma_model_at(channels: Seq<Channel>, i: int)
    requires
        distinct_names(channels),
        0 <= i < channels.len(),
    ensures
        has_channel(channels, channels[i].name@),
        slot_of(channels, channels[i].name@) == i,
        model(channels)[channels[i].name@] == channels[i].subscribers@,
{
}

/// Changing subscriber sets without touching names keeps the same channels.
proof fn lemma_names_kept(before: Seq<Channel>, after: Seq<Channel>)
    requires
        distinct_names(before),
        names_kept(before, after),
    ensures
        distinct_names(after),
        forall|name: Seq<char>| has_channel(before, name) == has_channel(after, name),
        forall|name: Seq<char>|
            has_channel(before, name) ==> slot_of(before, name) == slot_of(after, name),
{
    assert forall|name: Seq<char>| has_channel(before, name) == has_channel(after, name) by {}
    assert forall|name: Seq<char>| has_channel(before, name) implies slot_of(before, name)
        == slot_of(after, name) by {
        let i = slot_of(before, name);
        lemma_model_at(after, i);
    }
}

/// What iterating over a set of ids in the order of its keys yields.
proof fn lemma_key_order_ascends(keys: Seq<&ConnectionId>)
    requires
        vstd::std_specs::btree::increasing_seq(keys),
    ensures
        ascending(keys.unref()),
{
    broadcast use vstd::laws_cmp::group_laws_cmp;

    vstd::std_specs::btree::axiom_increasing_seq_meaning(keys);
    assert forall|i: int, j: int| 0 <= i < j < keys.len() implies *keys[i] < *keys[j] by {
        assert(OrdSpec::cmp_spec(&keys[i], &keys[j]) is Less);
    }
}

fn find(channels: &Vec<Channel>, name: &String) -> (at: Option<usize>)
    ensures
        match at {
            Some(i) => i < channels.len() && channels[i as int].name@ == name@,
            None => !has_channel(channels@, name@),
        },
{
    let mut i: usize = 0;
    while i < channels.len()
        invariant
            i <= channels.len(),
            forall|k: int| 0 <= k < i ==> channels[k].name@ != name@,
        decreases channels.len() - i,
    {
        if channels[i].name == *name {
            return Some(i);
        }
        i += 1;
    }
    None
}

/// Maps each channel name to the set of its subscribers. A channel comes into
/// being with its first subscriber and is kept when its last one leaves.
pub struct ChannelRegistry {
    channels: Vec<Channel>,
}

impl View for ChannelRegistry {
    type V = Map<Seq<char>, Set<ConnectionId>>;

    closed spec fn view(&self) -> Map<Seq<char>, Set<ConnectionId>> {
        model(self.channels@)
    }
}

// The invariant of a registry has to hold whenever the registry can be seen.
// A method that changes the channels therefore takes them out, leaving none
// behind, changes them, and puts them back.
impl ChannelRegistry {
    /// No two channels bear the same name.
    #[verifier::type_invariant]
    spec fn names_differ(self) -> bool {
        distinct_names(self.channels@)
    }

    /// A registry without channels.
    pub fn new() -> (registry: ChannelRegistry)
        ensures
            registry@ == Map::<Seq<char>, Set<ConnectionId>>::empty(),
    {
        ChannelRegistry { channels: Vec::new() }
    }

    /// Adds `id` to the subscribers of `name`, creating the channel if need
    /// be. Fails, and changes nothing, if `id` is subscribed already.
    pub fn subscribe(&mut self, name: String, id: ConnectionId) -> (done: Result<(), ServerError>)
        ensures
            match done {
                Ok(_) => !subscribers_of(old(self)@, name@).contains(id) && final(self)@
                    == with_subscriber(old(self)@, name@, id),
                Err(e) => e == ServerError::AlreadySubscribed && subscribers_of(
                    old(self)@,
                    name@,
                ).contains(id) && final(self)@ == old(self)@,
            },
    {
        proof {
            use_type_invariant(&*self);
        }
        let ghost wanted = name@;
        let at = find(&self.channels, &name);
        let mut channels: Vec<Channel> = Vec::new();
        std::mem::swap(&mut channels, &mut self.channels);
        let ghost before = channels@;
        let fresh = match at {
            Some(i) => {
                let fresh = channels[i].subscribers.insert(id);
                proof {
                    lemma_model_at(before, i as int);
                    lemma_names_kept(before, channels@);
                    if !fresh {
                        assert(channels@[i as int].subscribers@ =~= before[i as int].subscribers@);
                    }
                }
                fresh
            },
            None => {
                let mut subscribers = BTreeSet::new();
                subscribers.insert(id);
                channels.push(Channel { name, subscribers });
                proof {
                    let last = before.len() as int;
                    assert(channels@[last].name@ == wanted);
                    assert forall|n: Seq<char>| has_channel(channels@, n) == (has_channel(before, n)
                        || n == wanted) by {
                        if has_channel(before, n) {
                            assert(channels@[slot_of(before, n)].name@ == n);
                        }
                    }
                    assert forall|n: Seq<char>| has_channel(before, n) implies slot_of(
                        channels@,
                        n,
                    ) == slot_of(before, n) by {
                        let k = slot_of(before, n);
                        lemma_model_at(channels@, k);
                    }
                    lemma_model_at(channels@, last);
                }
                true
            },
        };
        self.channels = channels;
        if fresh {
            Ok(())
        } else {
            Err(ServerError::AlreadySubscribed)
        }
    }

    /// Removes `id` from the subscribers of `name`. Fails, and changes
    /// nothing, if there is no such channel or `id` is not subscribed to it.
    pub fn unsubscribe(&mut self, name: &String, id: ConnectionId) -> (done: Result<
        (),
        ServerError,
    >)
        ensures
            match done {
                Ok(_) => subscribers_of(old(self)@, name@).contains(id) && final(self)@
                    == without_subscriber(old(self)@, name@, id),
                Err(e) => e == ServerError::NotSubscribed && !subscribers_of(
                    old(self)@,
                    name@,
                ).contains(id) && final(self)@ == old(self)@,
            },
    {
        proof {
            use_type_invariant(&*self);
        }
        match find(&self.channels, name) {
            Some(i) => {
                let mut channels: Vec<Channel> = Vec::new();
                std::mem::swap(&mut channels, &mut self.channels);
                let ghost before = channels@;
                let was_member = channels[i].subscribers.remove(&id);
                proof {
                    lemma_model_at(before, i as int);
                    lemma_names_kept(before, channels@);
                    if !was_member {
                        assert(channels@[i as int].subscribers@ =~= before[i as int].subscribers@);
                    }
                }
                self.channels = channels;
                if was_member {
                    Ok(())
                } else {
                    Err(ServerError::NotSubscribed)
                }
            },
            None => Err(ServerError::NotSubscribed),
        }
    }

    /// Removes `id` from the subscribers of every channel.
    pub fn remove_connection(&mut self, id: ConnectionId)
        ensures
            final(self)@ == without_connection(old(self)@, id),
    {
        proof {
            use_type_invariant(&*self);
        }
        let mut channels: Vec<Channel> = Vec::new();
        std::mem::swap(&mut channels, &mut self.channels);
        let ghost before = channels@;
        let mut i: usize = 0;
        while i < channels.len()
            invariant
                i <= channels.len(),
                names_kept(before, channels@),
                forall|k: int|
                    0 <= k < i ==> channels[k].subscribers@ == before[k].subscribers@.remove(id),
                forall|k: int|
                    i <= k < channels.len() ==> channels[k].subscribers@
                        == before[k].subscribers@,
            decreases channels.len() - i,
        {
            channels[i].subscribers.remove(&id);
            i += 1;
        }
        proof {
            lemma_names_kept(before, channels@);
        }
        self.channels = channels;
    }

    /// The subscribers of `name`, from the smallest id to the largest. Empty
    /// if there is no such channel.
    pub fn subscribers_of(&self, name: &String) -> (ids: Vec<ConnectionId>)
        ensures
            ascending(ids@),
            ids@.to_set() == subscribers_of(self@, name@),
    {
        proof {
            use_type_invariant(&*self);
        }
        let mut ids: Vec<ConnectionId> = Vec::new();
        if let Some(i) = find(&self.channels, name) {
            let subscribers = &self.channels[i].subscribers;
            for id in walk: subscribers.iter()
                invariant
                    ids@.len() == walk.index(),
                    walk.seq() == subscribers.iter().remaining(),
                    forall|k: int| 0 <= k < ids@.len() ==> ids@[k] == *walk.seq()[k],
            {
                ids.push(*id);
            }
            proof {
                let keys = subscribers.iter().remaining();
                assert(ids@ =~= keys.unref());
                lemma_key_order_ascends(keys);
                lemma_model_at(self.channels@, i as int);
            }
        }
        ids
    }
}

} // verus!
