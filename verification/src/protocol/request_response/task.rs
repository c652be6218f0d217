//! The life of a request once its substream is open: it is sent, and then its response is awaited.

use super::handle::RequestResponseError;
use super::state;
use vstd::prelude::*;

verus! {

/// How sending a request within the timeout went.
#[derive(Clone, Copy, Debug, PartialEq, Eq, Structural)]
pub enum SendOutcome {
    /// The request was sent.
    Sent,
    /// The timeout expired.
    TimedOut,
    /// The request is larger than the codec of the protocol permits.
    PermissionDenied,
    /// The substream failed.
    Failed,
}

/// What came first once the request was sent.
#[derive(Debug, PartialEq, Eq)]
pub enum ReplyEvent {
    /// The user has canceled the request.
    Canceled,
    /// The timeout expired.
    TimedOut,
    /// The remote peer has sent a message.
    Received(Vec<u8>),
    /// The substream was closed or failed.
    Closed,
}

/// Why a request fails that is being sent, if it does.
pub fn send_failure(outcome: SendOutcome) -> (r: Option<RequestResponseError>)
    ensures
        r == (match outcome {
            SendOutcome::Sent => None::<RequestResponseError>,
            SendOutcome::TimedOut => Some(RequestResponseError::Timeout),
            SendOutcome::PermissionDenied => Some(RequestResponseError::TooLargePayload),
            SendOutcome::Failed => Some(RequestResponseError::NotConnected),
        }),
{
    match outcome {
        SendOutcome::Sent => None,
        SendOutcome::TimedOut => Some(RequestResponseError::Timeout),
        SendOutcome::PermissionDenied => Some(RequestResponseError::TooLargePayload),
        SendOutcome::Failed => Some(RequestResponseError::NotConnected),
    }
}

/// The response to a request that was sent, or why there is none, and whether the local node is to
/// close the substream.
pub fn reply(event: ReplyEvent) -> (r: (Result<Vec<u8>, RequestResponseError>, bool))
    ensures
        state::message_view(r.0) == (match event {
            ReplyEvent::Canceled => Err::<Seq<u8>, _>(RequestResponseError::Canceled),
            ReplyEvent::TimedOut => Err(RequestResponseError::Timeout),
            ReplyEvent::Received(response) => Ok(response@),
            ReplyEvent::Closed => Err(RequestResponseError::Rejected),
        }),
        r.1 <==> event is Canceled || event is TimedOut,
{
    match event {
        ReplyEvent::Canceled => (Err(RequestResponseError::Canceled), true),
        ReplyEvent::TimedOut => (Err(RequestResponseError::Timeout), true),
        ReplyEvent::Received(response) => (Ok(response), false),
        ReplyEvent::Closed => (Err(RequestResponseError::Rejected), false),
    }
}

} // verus!
