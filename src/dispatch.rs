//! Routing of packets to the three delivery lanes.
use vstd::prelude::*;
use crate::codec::enc_packet;
use crate::protocol::{spec_kind, EventKind, Packet, PacketView};

verus! {

/// Backlog of each lane's fan-out channel, in messages.
pub open spec fn spec_lane_capacity(kind: EventKind) -> usize {
    match kind {
        EventKind::Mouse => 120,
        EventKind::Keyboard => 30,
        EventKind::Misc => 30,
    }
}

/// Transport priority of each lane's stream: pointer data first.
pub open spec fn spec_lane_priority(kind: EventKind) -> i32 {
    match kind {
        EventKind::Mouse => 2,
        EventKind::Keyboard => 1,
        EventKind::Misc => 0,
    }
}

pub fn lane_capacity(kind: EventKind) -> (r: usize)
    ensures
        r == spec_lane_capacity(kind),
{
    match kind {
        EventKind::Mouse => 120,
        EventKind::Keyboard => 30,
        EventKind::Misc => 30,
    }
}

pub fn lane_priority(kind: EventKind) -> (r: i32)
    ensures
        r == spec_lane_priority(kind),
{
    match kind {
        EventKind::Mouse => 2,
        EventKind::Keyboard => 1,
        EventKind::Misc => 0,
    }
}

/// The lanes of a connection, in the order they are opened.
pub fn lanes() -> (r: Vec<EventKind>)
    ensures
        r@ == seq![EventKind::Mouse, EventKind::Keyboard, EventKind::Misc],
{
    let mut r: Vec<EventKind> = Vec::new();
    r.push(EventKind::Mouse);
    r.push(EventKind::Keyboard);
    r.push(EventKind::Misc);
    assert(r@ =~= seq![EventKind::Mouse, EventKind::Keyboard, EventKind::Misc]);
    r
}

/// The lane a packet goes to, and the bytes published there.
pub fn route(packet: &Packet) -> (r: (EventKind, Vec<u8>))
    ensures
        r.0 == spec_kind(packet.event@),
        r.1@ == enc_packet(packet@),
{
    (packet.event.kind(), packet.to_vec())
}

/// The messages that lane `kind` carries when `packets` are routed in
/// order.
pub open spec fn lane_stream(packets: Seq<PacketView>, kind: EventKind) -> Seq<Seq<u8>>
    decreases packets.len(),
{
    if packets.len() == 0 {
        Seq::empty()
    } else {
        let rest = lane_stream(packets.drop_last(), kind);
        if spec_kind(packets.last().event) == kind {
            rest.push(enc_packet(packets.last()))
        } else {
            rest
        }
    }
}

/// Lanes are isolated: a packet routed to another lane leaves a lane's
/// stream as it was, and a packet of the lane is appended to it in order.
pub proof fn lemma_lane_isolation(packets: Seq<PacketView>, p: PacketView, kind: EventKind)
    ensures
        spec_kind(p.event) != kind ==> lane_stream(packets.push(p), kind) == lane_stream(packets, kind),
        spec_kind(p.event) == kind ==> lane_stream(packets.push(p), kind) == lane_stream(packets, kind).push(enc_packet(p)),
{
    assert(packets.push(p).drop_last() =~= packets);
}

} // verus!
