//! The broker and the per-connection handler that drives it.

use crate::channels::{
    ascending, subscribers_of, with_subscriber, without_connection, without_subscriber,
    ChannelRegistry,
};
use crate::error::ServerError;
use crate::message::{undecodable, Envelope, PubSubMessage};
use crate::registry::{ConnectionId, ConnectionRegistry};
use crate::transport::{send_binary, sender_token, token_of};
use vstd::prelude::*;

verus! {

/// The broker's state as contracts see it.
pub struct ServerView {
    /// The handle of each registered connection.
    pub clients: Map<ConnectionId, ws::Sender>,
    /// The subscribers of each channel that was ever subscribed to.
    pub channels: Map<Seq<char>, Set<ConnectionId>>,
}

impl ServerView {
    /// The state after the connection behind `handle` has been registered.
    pub open spec fn connect(self, handle: ws::Sender) -> ServerView {
        ServerView { clients: self.clients.insert(sender_token(handle), handle), ..self }
    }

    /// The state after `id` has gone: unregistered, and off every channel.
    pub open spec fn disconnect(self, id: ConnectionId) -> ServerView {
        ServerView {
            clients: self.clients.remove(id),
            channels: without_connection(self.channels, id),
        }
    }

    /// The connections subscribed to `channel`.
    pub open spec fn subscribers(self, channel: Seq<char>) -> Set<ConnectionId> {
        subscribers_of(self.channels, channel)
    }

    /// Why a request of `id` to join `channel` is refused, if it is.
    pub open spec fn subscribe_refusal(self, id: ConnectionId, channel: Seq<char>) -> Option<
        ServerError,
    > {
        if self.subscribers(channel).contains(id) {
            Some(ServerError::AlreadySubscribed)
        } else {
            None
        }
    }

    /// Why a request of `id` to leave `channel` is refused, if it is.
    pub open spec fn unsubscribe_refusal(self, id: ConnectionId, channel: Seq<char>) -> Option<
        ServerError,
    > {
        if self.subscribers(channel).contains(id) {
            None
        } else {
            Some(ServerError::NotSubscribed)
        }
    }

    /// The state after `id` has asked to join `channel`.
    pub open spec fn subscribe(self, id: ConnectionId, channel: Seq<char>) -> ServerView {
        if self.subscribers(channel).contains(id) {
            self
        } else {
            ServerView { channels: with_subscriber(self.channels, channel, id), ..self }
        }
    }

    /// The state after `id` has asked to leave `channel`.
    pub open spec fn unsubscribe(self, id: ConnectionId, channel: Seq<char>) -> ServerView {
        if self.subscribers(channel).contains(id) {
            ServerView { channels: without_subscriber(self.channels, channel, id), ..self }
        } else {
            self
        }
    }

    /// The state after `command` from `from` has been handled. Only requests
    /// to join or to leave a channel change it.
    pub open spec fn after(self, from: ConnectionId, command: Envelope) -> ServerView {
        match command {
            Envelope::Subscribe { channel } => self.subscribe(from, channel),
            Envelope::Unsubscribe { channel } => self.unsubscribe(from, channel),
            _ => self,
        }
    }

    /// What is owed to `from` in answer to `command`: an acknowledgement of a
    /// request that was carried out, the reason for one that was not, an
    /// error report handed back, and nothing for an acknowledgement.
    pub open spec fn answer(self, from: ConnectionId, command: Envelope) -> Option<Envelope> {
        match command {
            Envelope::Subscribe { channel } => Some(
                verdict(self.subscribe_refusal(from, channel)),
            ),
            Envelope::Unsubscribe { channel } => Some(
                verdict(self.unsubscribe_refusal(from, channel)),
            ),
            Envelope::Publish { .. } => Some(Envelope::Acknowledge),
            Envelope::Acknowledge => None,
            Envelope::ErrorReport { message } => Some(Envelope::ErrorReport { message }),
        }
    }

    /// Whether `report` records one publish to `channel` in this state: one
    /// entry for each subscriber, in ascending order of id, and the entries
    /// of unregistered subscribers, and only those, marked as gone.
    pub open spec fn is_fan_out(self, channel: Seq<char>, report: Seq<Delivery>) -> bool {
        &&& ascending(recipients(report))
        &&& recipients(report).to_set() == self.subscribers(channel)
        &&& forall|k: int|
            0 <= k < report.len() ==> (report[k].status is ConnectionGone
                <==> !self.clients.contains_key(report[k].to))
    }
}

/// The reply to a request: an acknowledgement, or the reason for the refusal.
pub open spec fn verdict(refusal: Option<ServerError>) -> Envelope {
    match refusal {
        None => Envelope::Acknowledge,
        Some(e) => Envelope::ErrorReport { message: e.reason_text() },
    }
}

/// How the attempt to hand a payload to one subscriber ended.
#[derive(Clone, Copy, Debug, PartialEq, Eq, Structural)]
pub enum DeliveryStatus {
    /// The subscriber's handle took the payload.
    Delivered,
    /// The subscriber has no handle in the registry.
    ConnectionGone,
    /// The subscriber's handle refused the payload.
    TransportError,
}

impl DeliveryStatus {
    /// What a handle's answer to a payload means for the delivery.
    pub fn of_send(sent: Result<(), ws::Error>) -> (status: DeliveryStatus)
        ensures
            status == (if sent is Ok {
                DeliveryStatus::Delivered
            } else {
                DeliveryStatus::TransportError
            }),
    {
        match sent {
            Ok(()) => DeliveryStatus::Delivered,
            Err(_) => DeliveryStatus::TransportError,
        }
    }
}

/// One attempt to hand a published payload to a subscriber.
#[derive(Clone, Copy, Debug, PartialEq, Eq, Structural)]
pub struct Delivery {
    /// The subscriber.
    pub to: ConnectionId,
    /// How the attempt ended.
    pub status: DeliveryStatus,
}

/// The subscribers that `report` has an entry for, in its order.
pub open spec fn recipients(report: Seq<Delivery>) -> Seq<ConnectionId> {
    report.map_values(|delivery: Delivery| delivery.to)
}

/// The broker: the connection registry and the channel registry, changed
/// together.
pub struct Server {
    clients: ConnectionRegistry,
    channels: ChannelRegistry,
}

impl View for Server {
    type V = ServerView;

    closed spec fn view(&self) -> ServerView {
        ServerView { clients: self.clients@, channels: self.channels@ }
    }
}

impl Server {
    /// A broker with no connection and no channel.
    pub fn new() -> (server: Server)
        ensures
            server@.clients == Map::<ConnectionId, ws::Sender>::empty(),
            server@.channels == Map::<Seq<char>, Set<ConnectionId>>::empty(),
    {
        Server { clients: ConnectionRegistry::new(), channels: ChannelRegistry::new() }
    }

    /// Registers the connection behind `client` under its token. A handle
    /// registered under that token before is replaced.
    pub fn add_client(&mut self, client: &ws::Sender)
        ensures
            final(self)@ == old(self)@.connect(*client),
    {
        let token = token_of(client);
        self.clients.add(token, client.clone());
    }

    /// Unregisters `token` and takes it off every channel. Does nothing if
    /// `token` is neither registered nor subscribed.
    pub fn remove_client(&mut self, token: ConnectionId)
        ensures
            final(self)@ == old(self)@.disconnect(token),
    {
        self.clients.remove(token);
        self.channels.remove_connection(token);
    }

    /// Subscribes `client` to `channel`, creating the channel if need be.
    /// Fails, and changes nothing, if `client` is subscribed already.
    pub fn sub_client(&mut self, client: ConnectionId, channel: String) -> (done: Result<
        (),
        ServerError,
    >)
        ensures
            final(self)@ == old(self)@.subscribe(client, channel@),
            match done {
                Ok(_) => old(self)@.subscribe_refusal(client, channel@) is None,
                Err(e) => old(self)@.subscribe_refusal(client, channel@) == Some(e),
            },
    {
        self.channels.subscribe(channel, client)
    }

    /// Takes `client` off `channel`. Fails, and changes nothing, if there is
    /// no such channel or `client` is not subscribed to it.
    pub fn unsub_client(&mut self, client: ConnectionId, channel: String) -> (done: Result<
        (),
        ServerError,
    >)
        ensures
            final(self)@ == old(self)@.unsubscribe(client, channel@),
            match done {
                Ok(_) => old(self)@.unsubscribe_refusal(client, channel@) is None,
                Err(e) => old(self)@.unsubscribe_refusal(client, channel@) == Some(e),
            },
    {
        self.channels.unsubscribe(&channel, client)
    }

    /// The handle registered for `token`, if there is one.
    pub fn lookup(&self, token: ConnectionId) -> (found: Option<&ws::Sender>)
        ensures
            found == (if self@.clients.contains_key(token) {
                Some(&self@.clients[token])
            } else {
                None
            }),
    {
        self.clients.lookup(token)
    }

    /// The subscribers of `channel`, from the smallest id to the largest.
    /// Empty if nobody ever subscribed to `channel`.
    pub fn subscribers_of(&self, channel: &String) -> (ids: Vec<ConnectionId>)
        ensures
            ascending(ids@),
            ids@.to_set() == self@.subscribers(channel@),
    {
        self.channels.subscribers_of(channel)
    }

    /// Hands `payload` to the handle registered for `to`, if there is one.
    fn deliver(&self, to: ConnectionId, payload: &[u8]) -> (status: DeliveryStatus)
        ensures
            status is ConnectionGone <==> !self@.clients.contains_key(to),
    {
        match self.clients.lookup(to) {
            Some(handle) => DeliveryStatus::of_send(send_binary(handle, payload)),
            None => DeliveryStatus::ConnectionGone,
        }
    }

    /// Hands `msg` once to every subscriber of `channel`, in ascending order
    /// of id, and reports how each attempt ended. A failed attempt does not
    /// keep the later ones from being made. Publishing to a channel without
    /// subscribers, or one that does not exist, succeeds with an empty report.
    pub fn pub_message(&mut self, channel: String, msg: &[u8]) -> (done: Result<
        Vec<Delivery>,
        ServerError,
    >)
        ensures
            final(self)@ == old(self)@,
            done matches Ok(report) && old(self)@.is_fan_out(channel@, report@),
    {
        let ids = self.channels.subscribers_of(&channel);
        let mut report: Vec<Delivery> = Vec::new();
        let mut i: usize = 0;
        while i < ids.len()
            invariant
                i <= ids.len(),
                report.len() == i,
                forall|k: int| 0 <= k < i ==> report[k].to == ids[k],
                forall|k: int|
                    0 <= k < i ==> (report[k].status is ConnectionGone
                        <==> !self@.clients.contains_key(report[k].to)),
            decreases ids.len() - i,
        {
            let to = ids[i];
            let status = self.deliver(to, msg);
            report.push(Delivery { to, status });
            i += 1;
        }
        assert(recipients(report@) =~= ids@);
        Ok(report)
    }
}

/// What handling one command came to.
#[derive(Debug, PartialEq, Eq)]
pub struct Reaction {
    /// What to send back to the connection that the command came from.
    pub reply: Option<PubSubMessage>,
    /// The attempts to hand a published payload to subscribers.
    pub deliveries: Vec<Delivery>,
}

impl Reaction {
    /// What the reply says, if there is one.
    pub open spec fn reply_view(self) -> Option<Envelope> {
        match self.reply {
            Some(message) => Some(message@),
            None => None,
        }
    }
}

/// The broker's end of one connection.
pub struct ClientHandle {
    /// Sends to the connection.
    pub client: ws::Sender,
}

impl ClientHandle {
    /// The token of the connection.
    pub fn token(&self) -> (id: ConnectionId)
        ensures
            id == sender_token(self.client),
    {
        token_of(&self.client)
    }

    /// The command that `decoded` holds; where decoding failed, the error
    /// report that stands in for it.
    pub fn parse_message(&self, decoded: Result<PubSubMessage, serde_json::Error>) -> (msg:
        PubSubMessage)
        ensures
            match decoded {
                Ok(command) => msg == command,
                Err(_) => msg@ == undecodable(),
            },
    {
        match decoded {
            Ok(command) => command,
            Err(_) => PubSubMessage::ERROR { msg: "serde error".to_owned() },
        }
    }

    /// The connection has opened: registers it with `server`.
    pub fn on_open(&self, server: &mut Server)
        ensures
            final(server)@ == old(server)@.connect(self.client),
    {
        server.add_client(&self.client);
    }

    /// The connection has closed: unregisters it and takes it off every
    /// channel.
    pub fn on_close(&self, server: &mut Server)
        ensures
            final(server)@ == old(server)@.disconnect(sender_token(self.client)),
    {
        let token = self.token();
        server.remove_client(token);
    }

    /// Handles one command from the connection and says what to send back.
    pub fn on_message(&self, server: &mut Server, msg: PubSubMessage) -> (reaction: Reaction)
        ensures
            final(server)@ == old(server)@.after(sender_token(self.client), msg@),
            reaction.reply_view() == old(server)@.answer(sender_token(self.client), msg@),
            match msg@ {
                Envelope::Publish { channel, .. } => old(server)@.is_fan_out(
                    channel,
                    reaction.deliveries@,
                ),
                _ => reaction.deliveries@.len() == 0,
            },
    {
        let token = self.token();
        match msg {
            PubSubMessage::SUBSCRIBE { channel } => {
                let done = server.sub_client(token, channel);
                Reaction { reply: Some(reply_for(done)), deliveries: Vec::new() }
            },
            PubSubMessage::UNSUBSCRIBE { channel } => {
                let done = server.unsub_client(token, channel);
                Reaction { reply: Some(reply_for(done)), deliveries: Vec::new() }
            },
            PubSubMessage::PUBLISH { channel, msg } => {
                match server.pub_message(channel, msg.as_slice()) {
                    Ok(deliveries) => Reaction { reply: Some(PubSubMessage::OK {  }), deliveries },
                    Err(e) => Reaction {
                        reply: Some(PubSubMessage::ERROR { msg: e.reason() }),
                        deliveries: Vec::new(),
                    },
                }
            },
            PubSubMessage::OK {  } => Reaction { reply: None, deliveries: Vec::new() },
            PubSubMessage::ERROR { msg } => Reaction {
                reply: Some(PubSubMessage::ERROR { msg }),
                deliveries: Vec::new(),
            },
        }
    }
}

/// The reply to a request that ended as `done`.
fn reply_for(done: Result<(), ServerError>) -> (reply: PubSubMessage)
    ensures
        reply@ == verdict(
            match done {
                Ok(_) => None,
                Err(e) => Some(e),
            },
        ),
{
    match done {
        Ok(_) => PubSubMessage::OK {  },
        Err(e) => PubSubMessage::ERROR { msg: e.reason() },
    }
}

} // verus!
