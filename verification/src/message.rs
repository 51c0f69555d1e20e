//! The commands that travel between a client and the broker.

use vstd::prelude::*;

verus! {

/// `serde_json::Error`, taken as a value of which nothing is known.
#[verifier::external_type_specification]
#[verifier::external_body]
pub struct ExDecodeError(serde_json::Error);

/// One command, as clients and broker exchange it.
#[derive(Debug, PartialEq, Eq)]
#[allow(inconsistent_fields)]
pub enum PubSubMessage {
    /// Client to broker: add me to `channel`.
    SUBSCRIBE { channel: String },
    /// Client to broker: take me off `channel`.
    UNSUBSCRIBE { channel: String },
    /// Client to broker: hand `msg` to the subscribers of `channel`.
    PUBLISH { channel: String, msg: Vec<u8> },
    /// Broker to client: the request was carried out.
    OK {},
    /// Broker to client: the request was not carried out, and why.
    ERROR { msg: String },
}

/// What a [`PubSubMessage`] says, apart from how it is stored.
pub enum Envelope {
    /// A request to join `channel`.
    Subscribe { channel: Seq<char> },
    /// A request to leave `channel`.
    Unsubscribe { channel: Seq<char> },
    /// A request to hand `payload` to the subscribers of `channel`.
    Publish { channel: Seq<char>, payload: Seq<u8> },
    /// The answer to a request that was carried out.
    Acknowledge,
    /// The answer to a request that was not carried out, or to input that
    /// was no request.
    ErrorReport { message: Seq<char> },
}

impl View for PubSubMessage {
    type V = Envelope;

    open spec fn view(&self) -> Envelope {
        match self {
            PubSubMessage::SUBSCRIBE { channel } => Envelope::Subscribe { channel: channel@ },
            PubSubMessage::UNSUBSCRIBE { channel } => Envelope::Unsubscribe { channel: channel@ },
            PubSubMessage::PUBLISH { channel, msg } => Envelope::Publish {
                channel: channel@,
                payload: msg@,
            },
            PubSubMessage::OK {  } => Envelope::Acknowledge,
            PubSubMessage::ERROR { msg } => Envelope::ErrorReport { message: msg@ },
        }
    }
}

/// What the broker answers to input that is no command.
pub open spec fn undecodable() -> Envelope {
    Envelope::ErrorReport { message: "serde error"@ }
}

} // verus!
