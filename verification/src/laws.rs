//! What holds of the broker whatever its state: consequences of the
//! contracts in [`crate::server`], stated over the model and proved from it.

use crate::channels::ascending;
use crate::error::ServerError;
use crate::registry::ConnectionId;
use crate::server::{recipients, Delivery, ServerView};
use crate::transport::sender_token;
use vstd::prelude::*;

verus! {

/// Whether `report` has exactly one entry for `id`.
pub open spec fn reached_once(report: Seq<Delivery>, id: ConnectionId) -> bool {
    exists|k: int|
        0 <= k < report.len() && #[trigger] report[k].to == id && forall|j: int|
            0 <= j < report.len() && #[trigger] report[j].to == id ==> j == k
}

/// Whether `ids` lists `id` exactly once.
pub open spec fn listed_once(ids: Seq<ConnectionId>, id: ConnectionId) -> bool {
    exists|k: int|
        0 <= k < ids.len() && #[trigger] ids[k] == id && forall|j: int|
            0 <= j < ids.len() && #[trigger] ids[j] == id ==> j == k
}

/// Whether `report` has an entry for `id`.
pub open spec fn reached(report: Seq<Delivery>, id: ConnectionId) -> bool {
    exists|k: int| 0 <= k < report.len() && #[trigger] report[k].to == id
}

/// Whether every subscriber of every channel is a registered connection.
pub open spec fn subscribers_registered(state: ServerView) -> bool {
    forall|channel: Seq<char>, id: ConnectionId|
        #[trigger] state.subscribers(channel).contains(id) ==> state.clients.contains_key(id)
}

/// A publish reaches the subscribers of its channel, each of them once, and
/// nobody else.
pub proof fn lemma_fan_out_reaches_subscribers_once(
    state: ServerView,
    channel: Seq<char>,
    report: Seq<Delivery>,
    id: ConnectionId,
)
    requires
        state.is_fan_out(channel, report),
    ensures
        state.subscribers(channel).contains(id) ==> reached_once(report, id),
        !state.subscribers(channel).contains(id) ==> !reached(report, id),
{
    let ids = recipients(report);
    if state.subscribers(channel).contains(id) {
        assert(ids.to_set().contains(id));
        let k = choose|k: int| 0 <= k < ids.len() && ids[k] == id;
        assert forall|j: int| 0 <= j < report.len() && #[trigger] report[j].to == id implies j
            == k by {
            assert(ids[j] == ids[k]);
        }
    } else {
        if reached(report, id) {
            let k = choose|k: int| 0 <= k < report.len() && #[trigger] report[k].to == id;
            assert(ids[k] == id);
        }
    }
}

/// After a connection has subscribed to a channel, a publish to that channel
/// reaches it exactly once, and reaches no connection that is not subscribed.
pub proof fn lemma_subscribe_then_publish(
    state: ServerView,
    id: ConnectionId,
    channel: Seq<char>,
    report: Seq<Delivery>,
)
    requires
        state.subscribe(id, channel).is_fan_out(channel, report),
    ensures
        reached_once(report, id),
        forall|other: ConnectionId|
            reached(report, other) ==> state.subscribe(id, channel).subscribers(channel).contains(
                other,
            ),
{
    let now = state.subscribe(id, channel);
    lemma_fan_out_reaches_subscribers_once(now, channel, report, id);
    assert forall|other: ConnectionId| reached(report, other) implies now.subscribers(
        channel,
    ).contains(other) by {
        lemma_fan_out_reaches_subscribers_once(now, channel, report, other);
    }
}

/// Subscribing a second time is refused as `AlreadySubscribed` and changes
/// nothing: the connection stays among the channel's subscribers, and an
/// ascending listing of them names it exactly once.
pub proof fn lemma_subscribe_twice(
    state: ServerView,
    id: ConnectionId,
    channel: Seq<char>,
    listing: Seq<ConnectionId>,
)
    requires
        ascending(listing),
        listing.to_set() == state.subscribe(id, channel).subscribe(id, channel).subscribers(
            channel,
        ),
    ensures
        state.subscribe(id, channel).subscribe_refusal(id, channel) == Some(
            ServerError::AlreadySubscribed,
        ),
        state.subscribe(id, channel).subscribe(id, channel) == state.subscribe(id, channel),
        state.subscribe(id, channel).subscribers(channel).contains(id),
        listed_once(listing, id),
{
    assert(listing.to_set().contains(id));
    let k = choose|k: int| 0 <= k < listing.len() && listing[k] == id;
    assert(listing[k] == id);
}

/// Leaving a channel that the connection is not subscribed to is refused as
/// `NotSubscribed` and changes nothing.
pub proof fn lemma_unsubscribe_stranger(state: ServerView, id: ConnectionId, channel: Seq<char>)
    requires
        !state.subscribers(channel).contains(id),
    ensures
        state.unsubscribe_refusal(id, channel) == Some(ServerError::NotSubscribed),
        state.unsubscribe(id, channel) == state,
{
}

/// A connection that has left a channel is no longer reached by a publish to
/// it, and the other subscribers still are.
pub proof fn lemma_unsubscribe_then_publish(
    state: ServerView,
    id: ConnectionId,
    channel: Seq<char>,
    report: Seq<Delivery>,
)
    requires
        state.unsubscribe(id, channel).is_fan_out(channel, report),
    ensures
        !reached(report, id),
        forall|other: ConnectionId|
            other != id && state.subscribers(channel).contains(other) ==> reached_once(
                report,
                other,
            ),
{
    let now = state.unsubscribe(id, channel);
    lemma_fan_out_reaches_subscribers_once(now, channel, report, id);
    assert forall|other: ConnectionId|
        other != id && state.subscribers(channel).contains(other) implies reached_once(
        report,
        other,
    ) by {
        lemma_fan_out_reaches_subscribers_once(now, channel, report, other);
    }
}

/// Once a connection has disconnected it is neither registered nor
/// subscribed to any channel, and no publish to any channel reaches it.
pub proof fn lemma_disconnected_is_unreachable(
    state: ServerView,
    id: ConnectionId,
    channel: Seq<char>,
    report: Seq<Delivery>,
)
    requires
        state.disconnect(id).is_fan_out(channel, report),
    ensures
        !state.disconnect(id).clients.contains_key(id),
        !state.disconnect(id).subscribers(channel).contains(id),
        !reached(report, id),
{
    lemma_fan_out_reaches_subscribers_once(state.disconnect(id), channel, report, id);
}

/// A publish to a channel without subscribers reaches nobody.
pub proof fn lemma_publish_to_nobody(state: ServerView, channel: Seq<char>, report: Seq<Delivery>)
    requires
        state.subscribers(channel) == Set::<ConnectionId>::empty(),
        state.is_fan_out(channel, report),
    ensures
        report.len() == 0,
{
    if report.len() > 0 {
        assert(recipients(report)[0] == report[0].to);
        assert(recipients(report).to_set().contains(report[0].to));
    }
}

/// Two publishes to one channel in one state reach the same subscribers in
/// the same order: between their reports only the outcome of a hand-off to a
/// registered subscriber can differ.
pub proof fn lemma_publish_twice(
    state: ServerView,
    channel: Seq<char>,
    first: Seq<Delivery>,
    second: Seq<Delivery>,
)
    requires
        state.is_fan_out(channel, first),
        state.is_fan_out(channel, second),
    ensures
        recipients(first) == recipients(second),
        forall|k: int|
            0 <= k < first.len() ==> (first[k].status is ConnectionGone
                <==> second[k].status is ConnectionGone),
{
    lemma_ascending_listing_is_unique(recipients(first), recipients(second));
    assert forall|k: int| 0 <= k < first.len() implies (first[k].status is ConnectionGone
        <==> second[k].status is ConnectionGone) by {
        assert(recipients(first)[k] == recipients(second)[k]);
    }
}

/// A set of ids has at most one ascending listing.
pub proof fn lemma_ascending_listing_is_unique(a: Seq<ConnectionId>, b: Seq<ConnectionId>)
    requires
        ascending(a),
        ascending(b),
        a.to_set() == b.to_set(),
    ensures
        a == b,
    decreases a.len(),
{
    if a.len() == 0 || b.len() == 0 {
        if a.len() > 0 {
            assert(a.to_set().contains(a[0]));
        }
        if b.len() > 0 {
            assert(b.to_set().contains(b[0]));
        }
    } else {
        lemma_same_smallest(a, b);
        let rest_a = a.drop_first();
        let rest_b = b.drop_first();
        assert forall|id: ConnectionId| rest_a.to_set().contains(id) == rest_b.to_set().contains(
            id,
        ) by {
            if rest_a.to_set().contains(id) {
                lemma_rest_has(a, b, id);
            }
            if rest_b.to_set().contains(id) {
                lemma_rest_has(b, a, id);
            }
        }
        assert(rest_a.to_set() =~= rest_b.to_set());
        lemma_ascending_listing_is_unique(rest_a, rest_b);
        assert(b =~= seq![b[0]] + rest_b);
    }
}

/// Two ascending listings of one set begin with the same id.
proof fn lemma_same_smallest(a: Seq<ConnectionId>, b: Seq<ConnectionId>)
    requires
        ascending(a),
        ascending(b),
        a.to_set() == b.to_set(),
        a.len() > 0,
        b.len() > 0,
    ensures
        a[0] == b[0],
{
    assert(a.to_set().contains(a[0]));
    assert(b.to_set().contains(b[0]));
    let i = choose|i: int| 0 <= i < b.len() && b[i] == a[0];
    let j = choose|j: int| 0 <= j < a.len() && a[j] == b[0];
    assert(b[0] <= b[i] && a[0] <= a[j]);
}

/// What one ascending listing holds after its first id, another listing of
/// the same set holds after its first id too.
proof fn lemma_rest_has(a: Seq<ConnectionId>, b: Seq<ConnectionId>, id: ConnectionId)
    requires
        ascending(a),
        ascending(b),
        a.to_set() == b.to_set(),
        a.len() > 0,
        b.len() > 0,
        a.drop_first().to_set().contains(id),
    ensures
        b.drop_first().to_set().contains(id),
{
    lemma_same_smallest(a, b);
    let k = choose|k: int| 0 <= k < a.drop_first().len() && a.drop_first()[k] == id;
    assert(a.to_set().contains(id));
    let m = choose|m: int| 0 <= m < b.len() && b[m] == id;
    assert(b.drop_first()[m - 1] == id);
}

/// Registering a connection keeps every subscriber registered, and the
/// handle registered last is the one that is found.
pub proof fn lemma_connect(state: ServerView, handle: ws::Sender)
    requires
        subscribers_registered(state),
    ensures
        subscribers_registered(state.connect(handle)),
        state.connect(handle).clients[sender_token(handle)] == handle,
        state.connect(handle).channels == state.channels,
{
    let now = state.connect(handle);
    assert forall|channel: Seq<char>, id: ConnectionId| #[trigger]
        now.subscribers(channel).contains(id) implies now.clients.contains_key(id) by {
        assert(state.subscribers(channel).contains(id));
    }
}

/// Disconnecting a connection keeps every subscriber registered.
pub proof fn lemma_disconnect(state: ServerView, id: ConnectionId)
    requires
        subscribers_registered(state),
    ensures
        subscribers_registered(state.disconnect(id)),
{
    let now = state.disconnect(id);
    assert forall|channel: Seq<char>, other: ConnectionId| #[trigger]
        now.subscribers(channel).contains(other) implies now.clients.contains_key(other) by {
        assert(state.subscribers(channel).contains(other));
    }
}

/// A registered connection that joins or leaves a channel keeps every
/// subscriber registered.
pub proof fn lemma_membership_change(state: ServerView, id: ConnectionId, channel: Seq<char>)
    requires
        subscribers_registered(state),
        state.clients.contains_key(id),
    ensures
        subscribers_registered(state.subscribe(id, channel)),
        subscribers_registered(state.unsubscribe(id, channel)),
{
    let joined = state.subscribe(id, channel);
    assert forall|c: Seq<char>, other: ConnectionId| #[trigger]
        joined.subscribers(c).contains(other) implies joined.clients.contains_key(other) by {
        if other != id {
            assert(state.subscribers(c).contains(other));
        }
    }
    let left = state.unsubscribe(id, channel);
    assert forall|c: Seq<char>, other: ConnectionId| #[trigger]
        left.subscribers(c).contains(other) implies left.clients.contains_key(other) by {
        assert(state.subscribers(c).contains(other));
    }
}

/// Where every subscriber is registered, no hand-off of a publish finds its
/// subscriber gone.
pub proof fn lemma_nobody_gone(state: ServerView, channel: Seq<char>, report: Seq<Delivery>)
    requires
        subscribers_registered(state),
        state.is_fan_out(channel, report),
    ensures
        forall|k: int| 0 <= k < report.len() ==> !(report[k].status is ConnectionGone),
{
    assert forall|k: int| 0 <= k < report.len() implies !(report[k].status is ConnectionGone) by {
        assert(recipients(report)[k] == report[k].to);
        assert(state.subscribers(channel).contains(report[k].to));
    }
}

} // verus!
