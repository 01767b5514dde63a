//! The host resolver's decision logic: classifying candidate endpoints
//! and driving the sweep that binds to the first endpoint found playing.
//! Connecting, probing and sleeping are the host program's business; it
//! reports each probe's outcome and follows the step returned.

use vstd::prelude::*;

verus! {

/// Seconds to sleep after a full sweep found no playing endpoint, and
/// before restarting the presence connection after a fatal error.
pub const IDLE_TIME: u64 = 5;

/// One candidate endpoint, classified once at startup: a local socket
/// path, or a network `host:port` address.
pub enum Endpoint {
    Local { path: String },
    Network { address: String },
}

/// Classifies an endpoint string: a string naming an existing socket
/// file on the local filesystem (which only the host program can check)
/// is a local socket; anything else is a network address.
pub fn classify_endpoint(address: String, is_socket_file: bool) -> (r: Endpoint)
    ensures
        is_socket_file ==> (r matches Endpoint::Local { path } && path@ == address@),
        !is_socket_file ==> (r matches Endpoint::Network { address: a } && a@ == address@),
{
    if is_socket_file {
        Endpoint::Local { path: address }
    } else {
        Endpoint::Network { address }
    }
}

/// The next move of the endpoint sweep.
#[derive(Clone, Copy, PartialEq, Eq, Structural, Debug)]
pub enum SweepStep {
    /// Bind to the endpoint at this index: it connected and is playing.
    Use { index: usize },
    /// Try the endpoint at this index next.
    Next { index: usize },
    /// The sweep is exhausted: sleep for the retry interval, then sweep
    /// again from the first endpoint.
    Sleep,
}

/// Advances the sweep by one probe: the first endpoint found connected
/// and playing wins; a failure moves on to the next candidate; an
/// exhausted sweep sleeps and starts over. Connection failures are never
/// fatal.
pub fn sweep_step(count: usize, index: usize, connected_and_playing: bool) -> (r: SweepStep)
    requires
        index < count,
    ensures
        connected_and_playing ==> r == (SweepStep::Use { index }),
        !connected_and_playing && index + 1 < count ==> r == (SweepStep::Next {
            index: (index + 1) as usize,
        }),
        !connected_and_playing && index + 1 >= count ==> r == SweepStep::Sleep,
{
    if connected_and_playing {
        SweepStep::Use { index }
    } else if index + 1 < count {
        SweepStep::Next { index: index + 1 }
    } else {
        SweepStep::Sleep
    }
}

} // verus!
