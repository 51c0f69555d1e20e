//! Why the broker turns a request down.

use vstd::prelude::*;

verus! {

/// A request that the broker did not carry out. The broker's state is as it
/// was before the request.
#[derive(Clone, Copy, Debug, PartialEq, Eq, Structural)]
pub enum ServerError {
    /// The connection asked to join a channel it already belongs to.
    AlreadySubscribed,
    /// The connection asked to leave a channel it does not belong to.
    NotSubscribed,
}

impl ServerError {
    /// The reason, in words.
    pub open spec fn reason_text(self) -> Seq<char> {
        match self {
            ServerError::AlreadySubscribed => "The client was already subscribed to this channel."@,
            ServerError::NotSubscribed => "The client was never subscribed to this channel."@,
        }
    }

    /// The reason, in words, for the client that made the request.
    pub fn reason(&self) -> (text: String)
        ensures
            text@ == self.reason_text(),
    {
        match self {
            ServerError::AlreadySubscribed => {
                "The client was already subscribed to this channel.".to_owned()
            },
            ServerError::NotSubscribed => {
                "The client was never subscribed to this channel.".to_owned()
            },
        }
    }
}

} // verus!
