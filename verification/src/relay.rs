//! The relay's decision logic.  The relay itself is a loop around two
//! suspension points — one per direction — run outside this crate; every
//! time one of them yields, the loop hands the event to a step function
//! here and performs the action it returns.  An empty byte chunk stands
//! for end of stream on the half it came from.

use vstd::prelude::*;

verus! {

/// One ready event of the byte-stream relay: a chunk read from the client
/// half or from the target half.  An empty chunk is that half's EOF.
#[derive(Debug)]
pub enum RelayEvent {
    Inbound(Vec<u8>),
    Outbound(Vec<u8>),
}

/// What the byte-stream relay loop must do next.
#[derive(Debug)]
pub enum RelayAction {
    ForwardToOutbound(Vec<u8>),
    ForwardToInbound(Vec<u8>),
    ShutdownOutbound,
    ShutdownInbound,
}

/// One scheduling decision of the byte-stream relay: data is forwarded
/// whole to the opposite write half; EOF on one read half shuts the
/// opposite write half down and ends the relay.  The second component
/// says whether the relay is over.
pub fn relay_step(event: RelayEvent) -> (r: (RelayAction, bool))
    ensures
        match event {
            RelayEvent::Inbound(data) => if data@.len() == 0 {
                r == (RelayAction::ShutdownOutbound, true)
            } else {
                (r.0 matches RelayAction::ForwardToOutbound(d) && d@ == data@) && r.1 == false
            },
            RelayEvent::Outbound(data) => if data@.len() == 0 {
                r == (RelayAction::ShutdownInbound, true)
            } else {
                (r.0 matches RelayAction::ForwardToInbound(d) && d@ == data@) && r.1 == false
            },
        },
{
    match event {
        RelayEvent::Inbound(data) => {
            if data.len() == 0 {
                (RelayAction::ShutdownOutbound, true)
            } else {
                (RelayAction::ForwardToOutbound(data), false)
            }
        },
        RelayEvent::Outbound(data) => {
            if data.len() == 0 {
                (RelayAction::ShutdownInbound, true)
            } else {
                (RelayAction::ForwardToInbound(data), false)
            }
        },
    }
}

/// One ready event of the message-stream relay: a binary message from the
/// client, the client's stream ending or failing, a chunk read from the
/// target (empty meaning the target's EOF), or a failed target read.
#[derive(Debug)]
pub enum MessageRelayEvent {
    ClientMessage(Vec<u8>),
    ClientEnded,
    ClientFailed,
    TargetData(Vec<u8>),
    TargetFailed,
}

/// What the message-stream relay loop must do next.  `SignalClose` sends
/// one empty message on the client sink, the convention for target EOF.
#[derive(Debug)]
pub enum MessageRelayAction {
    ForwardToTarget(Vec<u8>),
    ForwardToClient(Vec<u8>),
    SignalClose,
    Stop,
}

/// One scheduling decision of the message-stream relay: client messages
/// are written whole to the target; target chunks are sent as one message
/// each; target EOF sends the empty close-signal message; a client end or
/// either side's failure stops the relay.  The second component says
/// whether the relay is over.
pub fn message_relay_step(event: MessageRelayEvent) -> (r: (MessageRelayAction, bool))
    ensures
        match event {
            MessageRelayEvent::ClientMessage(m) => (r.0 matches MessageRelayAction::ForwardToTarget(
                d,
            ) && d@ == m@) && r.1 == false,
            MessageRelayEvent::ClientEnded => r == (MessageRelayAction::Stop, true),
            MessageRelayEvent::ClientFailed => r == (MessageRelayAction::Stop, true),
            MessageRelayEvent::TargetData(m) => if m@.len() == 0 {
                r == (MessageRelayAction::SignalClose, true)
            } else {
                (r.0 matches MessageRelayAction::ForwardToClient(d) && d@ == m@) && r.1 == false
            },
            MessageRelayEvent::TargetFailed => r == (MessageRelayAction::Stop, true),
        },
{
    match event {
        MessageRelayEvent::ClientMessage(m) => (MessageRelayAction::ForwardToTarget(m), false),
        MessageRelayEvent::ClientEnded => (MessageRelayAction::Stop, true),
        MessageRelayEvent::ClientFailed => (MessageRelayAction::Stop, true),
        MessageRelayEvent::TargetData(m) => {
            if m.len() == 0 {
                (MessageRelayAction::SignalClose, true)
            } else {
                (MessageRelayAction::ForwardToClient(m), false)
            }
        },
        MessageRelayEvent::TargetFailed => (MessageRelayAction::Stop, true),
    }
}

} // verus!
