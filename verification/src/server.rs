//! What a server sends back: the reply to a request, and where it goes.

use vstd::prelude::*;
use crate::options::{DhcpOption, MessageType, OptionView, SERVER_IDENTIFIER};
use crate::packet::{spec_broadcast, spec_option, Packet, PacketView, BOOT_REPLY};

verus! {

/// The port a server listens on.
pub const SERVER_PORT: u16 = 67;

/// The port a client listens on.
pub const CLIENT_PORT: u16 = 68;

/// Where a reply is sent.
#[derive(Clone, Copy, Debug, PartialEq, Eq, Structural)]
pub enum Destination {
    /// To everybody on the segment, on the client port.
    Broadcast,
    /// To the relay agent at this address.
    Relay(u32),
    /// To the client at this address, on the client port.
    Unicast(u32),
}

/// The reply of type `t` to `request` that gives out `target` and carries
/// `options` after its message type.
pub open spec fn spec_reply(
    t: MessageType,
    options: Seq<OptionView>,
    target: u32,
    request: PacketView,
) -> PacketView {
    PacketView {
        op: BOOT_REPLY,
        htype: request.htype,
        hlen: request.hlen,
        hops: 0,
        xid: request.xid,
        secs: 0,
        flags: request.flags,
        ciaddr: if t == MessageType::Nak {
            0
        } else {
            request.ciaddr
        },
        yiaddr: target,
        siaddr: 0,
        giaddr: request.giaddr,
        chaddr: request.chaddr,
        options: seq![OptionView::DhcpMessageType(t)] + options,
    }
}

/// Where the reply to `request` goes, when it gives out `target`.
pub open spec fn spec_destination(request: PacketView, target: u32) -> Destination {
    if spec_broadcast(request.flags) || request.ciaddr == 0 {
        Destination::Broadcast
    } else if request.giaddr != 0 {
        Destination::Relay(request.giaddr)
    } else {
        Destination::Unicast(target)
    }
}

/// Whether `request` names `server` as the server it is meant for.
pub open spec fn spec_for_this_server(request: PacketView, server: u32) -> bool {
    spec_option(request.options, SERVER_IDENTIFIER) == Some(OptionView::ServerIdentifier(server))
}

/// Builds the reply of type `t` to `request`: it echoes the hardware type
/// and length, the transaction id, the flags, the relay address and the
/// hardware address of the request, gives out `target`, and carries the
/// message type followed by `options`.
pub fn reply(t: MessageType, options: Vec<DhcpOption>, target: u32, request: &Packet) -> (packet:
    Packet)
    ensures
        packet@ == spec_reply(t, options.deep_view(), target, request@),
{
    let ciaddr = match t {
        MessageType::Nak => 0,
        _ => request.ciaddr,
    };
    let mut all: Vec<DhcpOption> = Vec::new();
    all.push(DhcpOption::DhcpMessageType(t));
    let ghost given = options.deep_view();
    let mut rest = options;
    all.append(&mut rest);
    assert(all.deep_view() =~= seq![OptionView::DhcpMessageType(t)] + given);
    Packet {
        op: BOOT_REPLY,
        htype: request.htype,
        hlen: request.hlen,
        hops: 0,
        xid: request.xid,
        secs: 0,
        flags: request.flags,
        ciaddr,
        yiaddr: target,
        siaddr: 0,
        giaddr: request.giaddr,
        chaddr: request.chaddr,
        options: all,
    }
}

/// Where the reply to `request` goes: to everybody where the client asks
/// for a broadcast or has no address yet, else to the relay agent where
/// one passed the request on, else to `target`.
pub fn destination(request: &Packet, target: u32) -> (to: Destination)
    ensures
        to == spec_destination(request@, target),
{
    if request.broadcast() || request.ciaddr == 0 {
        Destination::Broadcast
    } else if request.giaddr != 0 {
        Destination::Relay(request.giaddr)
    } else {
        Destination::Unicast(target)
    }
}

/// Whether `request` names `server` in its server identifier.
pub fn for_this_server(request: &Packet, server: u32) -> (mine: bool)
    ensures
        mine == spec_for_this_server(request@, server),
{
    match request.option(SERVER_IDENTIFIER) {
        Some(DhcpOption::ServerIdentifier(ip)) => *ip == server,
        _ => false,
    }
}

impl Destination {
    /// The port a reply to this destination is sent to.
    pub open spec fn spec_port(self) -> u16 {
        match self {
            Destination::Relay(_) => SERVER_PORT,
            _ => CLIENT_PORT,
        }
    }

    /// The port a reply to this destination is sent to: a relay agent
    /// listens on the server port, a client on the client port.
    pub fn port(&self) -> (port: u16)
        ensures
            port == self.spec_port(),
    {
        match self {
            Destination::Relay(_) => SERVER_PORT,
            _ => CLIENT_PORT,
        }
    }
}

} // verus!
