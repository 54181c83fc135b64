//! The tracking source that answers a keep-alive request with datagrams.
//!
//! The tracker streams for a few seconds after each request, so the request
//! is repeated about once a second for as long as the bridge listens.

use vstd::prelude::*;
use vstd::string::StringExecFns;

verus! {

/// The tracking source that is asked for its data over UDP.
#[derive(Clone, Copy, Debug)]
pub struct VTubeStudioTrackingClient;

/// The tracker's port for requests, as it stands in an address.
pub const SERVICE_PORT_SUFFIX: &'static str = ":21412";

/// The kind of message that asks for tracking data.
pub const REQUEST_MESSAGE_TYPE: &'static str = "iOSTrackingDataRequest";

/// The name under which the bridge asks.
pub const SENT_BY: &'static str = "SandoitchiBridge";

/// For how many seconds one request keeps the data coming.
pub const SEND_FOR_SECONDS: u32 = 10;

/// Milliseconds between two requests.
pub const KEEP_ALIVE_MILLISECONDS: u64 = 1000;

/// How many seconds to wait for a datagram before looking at the clock
/// again.
pub const RECEIVE_TIMEOUT_SECONDS: u64 = 2;

/// The request that keeps the tracker sending.
#[derive(Clone, Debug, PartialEq, Eq)]
pub struct TrackingRequest {
    pub message_type: &'static str,
    pub sent_by: &'static str,
    pub send_for_seconds: u32,
    /// The local ports to which the tracker is to send.
    pub ports: Vec<u16>,
}

impl VTubeStudioTrackingClient {
    /// The request that asks the tracker to send to the local port `port`.
    pub fn keep_alive_request(port: u16) -> (request: TrackingRequest)
        ensures
            request.message_type@ == REQUEST_MESSAGE_TYPE@,
            request.sent_by@ == SENT_BY@,
            request.send_for_seconds == SEND_FOR_SECONDS,
            request.ports@ == seq![port],
    {
        let mut ports: Vec<u16> = Vec::new();
        ports.push(port);
        TrackingRequest {
            message_type: REQUEST_MESSAGE_TYPE,
            sent_by: SENT_BY,
            send_for_seconds: SEND_FOR_SECONDS,
            ports,
        }
    }

    /// The address of the tracker's request port.
    pub fn service_address(ip: &str) -> (address: String)
        ensures
            address@ == ip@ + SERVICE_PORT_SUFFIX@,
    {
        String::from_str(ip).concat(SERVICE_PORT_SUFFIX)
    }
}

/// Whether a request is due at `now`, given when the last one went out:
/// at once if none has, and else a period after the last.
pub open spec fn is_due(last_sent: Option<u64>, now: u64) -> bool {
    match last_sent {
        None => true,
        Some(at) => now - at >= KEEP_ALIVE_MILLISECONDS,
    }
}

/// The schedule of the keep-alive requests, on a clock that counts
/// milliseconds.
pub struct KeepAlive {
    last_sent: Option<u64>,
}

impl View for KeepAlive {
    type V = Option<u64>;

    /// When the last request went out.
    closed spec fn view(&self) -> Option<u64> {
        self.last_sent
    }
}

impl KeepAlive {
    /// A schedule whose first request is due at once.
    pub fn new() -> (schedule: Self)
        ensures
            schedule@ is None,
    {
        KeepAlive { last_sent: None }
    }

    /// Tells whether a request is to be sent at `now`, and if so counts the
    /// next period from `now`. A request that fell due while the caller was
    /// busy is sent late and once.
    pub fn poll(&mut self, now: u64) -> (send: bool)
        ensures
            send == is_due(old(self)@, now),
            final(self)@ == if send {
                Some(now)
            } else {
                old(self)@
            },
    {
        let due = match self.last_sent {
            None => true,
            Some(at) => now >= at && now - at >= KEEP_ALIVE_MILLISECONDS,
        };
        if due {
            self.last_sent = Some(now);
        }
        due
    }
}

/// After a request has gone out, none goes out before a period is over, and
/// one goes out at the first look after that.
pub proof fn lemma_once_a_period(sent_at: u64, later: u64)
    ensures
        is_due(Some(sent_at), later) <==> later - sent_at >= KEEP_ALIVE_MILLISECONDS,
        later < sent_at + KEEP_ALIVE_MILLISECONDS ==> !is_due(Some(sent_at), later),
{
}

} // verus!
