//! Per-packet diagnostics: the events a packet can report while it moves
//! through a domain, and the tracer handle that selects where they go.
//!
//! Tracing is best-effort: events are emitted toward the tracer's channel and
//! dropped without error when the channel is full or closed, so the trace
//! never blocks the domain.

use vstd::prelude::*;
use crate::addr::ChannelId;

verus! {

/// Different events that can occur as a packet is being processed.
#[derive(Clone, Copy, PartialEq, Eq, Structural)]
pub enum PacketEvent {
    /// The packet has been pulled off the input channel.
    ExitInputChannel,
    /// The packet has been received by some domain, and is being handled.
    Handle,
    /// The packet is being processed at some node.
    Process,
    /// The packet has reached some reader node.
    ReachedReader,
}

/// An opaque monotonic timestamp attached to emitted trace events. The domain
/// itself always stamps zero; consumers attach their own clock when they need
/// one.
pub type TimeInstant = u64;

/// Where a packet's trace events go, when the packet carries a tracer at all.
pub type Tracer = Option<ChannelId>;

/// The event emission a tracer asks for: `(timestamp, event)` toward the
/// tracer's channel. The domain stamps zero.
pub fn trace_emission(tracer: &Tracer, event: PacketEvent) -> (r: Option<
    (ChannelId, TimeInstant, PacketEvent),
>)
    ensures
        r == (match tracer {
            Some(c) => Some((*c, 0u64, event)),
            None => None::<(ChannelId, TimeInstant, PacketEvent)>,
        }),
{
    match tracer {
        Some(c) => Some((*c, 0, event)),
        None => None,
    }
}

} // verus!
