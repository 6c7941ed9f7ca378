//! The plain dealer connection: it forwards every wss event to its owner and
//! answers only the connection's own requests.

use vstd::prelude::*;
use crate::spotifyapi::{DealerInput, MessageLikeObjects, Response, WssEvent};

verus! {

/// What the plain dealer connection does next.
#[derive(Debug)]
pub enum FetchAction {
    /// Nothing; wait for the next input.
    Nothing,
    /// Hand this event to the owner.
    Forward(WssEvent),
    /// Register the player notifications for this connection id.
    ActivateConnection(String),
    /// Send a ping.
    SendPing,
    /// Stop: the server closed the connection.
    Abort,
}

/// One turn of the plain dealer connection: a wss event is forwarded, a
/// connection id is registered, a tick sends a ping, a close stops it, and
/// anything else (a pong, an unreadable text, another frame) is passed over.
pub fn fetch_step(input: DealerInput) -> (res: FetchAction)
    ensures
        input is Tick ==> res is SendPing,
        input is Close ==> res is Abort,
        input is OtherFrame ==> res is Nothing,
        input matches DealerInput::Text(None) ==> res is Nothing,
        input matches DealerInput::Text(Some(Response::Pong)) ==> res is Nothing,
        input matches DealerInput::Text(Some(Response::Message(MessageLikeObjects::Put(p))))
            ==> res == FetchAction::ActivateConnection(p.headers.spotify_connection_id),
        input matches DealerInput::Text(Some(Response::Message(MessageLikeObjects::WssEvent(w))))
            ==> res == FetchAction::Forward(w),
{
    match input {
        DealerInput::Tick => FetchAction::SendPing,
        DealerInput::Close => FetchAction::Abort,
        DealerInput::OtherFrame => FetchAction::Nothing,
        DealerInput::Text(None) => FetchAction::Nothing,
        DealerInput::Text(Some(Response::Pong)) => FetchAction::Nothing,
        DealerInput::Text(Some(Response::Message(MessageLikeObjects::Put(p)))) => {
            FetchAction::ActivateConnection(p.headers.spotify_connection_id)
        },
        DealerInput::Text(Some(Response::Message(MessageLikeObjects::WssEvent(w)))) => {
            FetchAction::Forward(w)
        },
    }
}

} // verus!
