//! What the broker takes on trust from the `ws` crate.
//!
//! A `ws::Sender` is the handle through which bytes reach one connection.
//! Nothing of its inside is visible here: the broker carries it around, asks
//! for its token and hands it payloads.

use vstd::prelude::*;

verus! {

/// `ws::Sender`, taken as a value of which nothing is known.
#[verifier::external_type_specification]
#[verifier::external_body]
pub struct ExSender(ws::Sender);

/// `ws::Error`, taken as a value of which nothing is known.
#[verifier::external_type_specification]
#[verifier::external_body]
pub struct ExTransportError(ws::Error);

/// What `ws::Sender::token` returns for `handle`, as a number: the token that
/// `ws` gave to the connection behind the handle.
pub uninterp spec fn sender_token(handle: ws::Sender) -> usize;

/// `ws::Sender::token`: reads the token stored in the handle and unwraps the
/// number inside it. The handle is not changed, so the same handle always
/// gives the same number.
#[verifier::external_body]
pub(crate) fn token_of(handle: &ws::Sender) -> (id: usize)
    ensures
        id == sender_token(*handle),
{
    handle.token().0
}

/// `Clone` for `ws::Sender`: the copy carries the same token, the same
/// connection id and an end of the same queue, so it is the same handle.
pub assume_specification[ <ws::Sender as Clone>::clone ](handle: &ws::Sender) -> (copy: ws::Sender)
    ensures
        copy == *handle,
;

/// `ws::Sender::send` with a byte slice: puts the bytes, as one binary
/// message for the connection behind `handle`, into the queue of the event
/// loop, waiting while that queue is full. It fails when the event loop no
/// longer reads the queue. That depends on the other end, so nothing is
/// promised of the result.
#[verifier::external_body]
pub(crate) fn send_binary(handle: &ws::Sender, payload: &[u8]) -> (sent: Result<(), ws::Error>) {
    handle.send(payload)
}

} // verus!
