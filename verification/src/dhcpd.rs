//! The server: its lease table and its pool, and what it decides on each
//! message from a client.

use vstd::prelude::*;
use vstd::string::StringExecFns;
use std::collections::HashMap;
use crate::config::Config;
use crate::lease::{Lease, StaticAssignment, INFINITE_LEASE};
use crate::options::{DhcpOption, MessageType, OptionView, REQUESTED_IP_ADDRESS};
use crate::packet::{
    spec_decode, spec_encode, spec_message_type, spec_option, Packet, PacketView,
};
use crate::server::{
    destination, for_this_server, reply, spec_destination, spec_for_this_server, spec_reply,
    Destination,
};
use crate::statics::{parse_static_lines, spec_static_lines};
use crate::store::{
    current_lease_in, lease_entries, load_leases, mac_eq, spec_current_lease, spec_lists,
    spec_loaded, spec_start_cursor,
};

verus! {

broadcast use vstd::std_specs::hash::group_hash_axioms;

/// What a refused request is told.
pub const NOT_AVAILABLE: &'static str = "Requested IP not available";

/// The duration that `duration_str::parse` reads from a text, as whole
/// seconds and the nanoseconds beyond them, and nothing where it refuses
/// the text.
pub uninterp spec fn spec_duration(text: Seq<char>) -> Option<(u64, u32)>;

/// The whole seconds of the duration that a text writes, and nothing where
/// the text is no duration.
pub open spec fn spec_whole_secs(text: Seq<char>) -> Option<u64> {
    match spec_duration(text) {
        Some((secs, _)) => Some(secs),
        None => None,
    }
}

/// Why a server cannot be set up.
#[derive(Clone, Copy, Debug, PartialEq, Eq, Structural)]
pub enum StartupError {
    /// The line of this index in the file of static assignments is
    /// malformed.
    StaticLine(usize),
    /// The lease time of the configuration is no duration.
    LeaseTime,
}

/// A DHCP server: its configuration, its lease table, and the place in the
/// pool where it made its last offer.
#[derive(Debug)]
pub struct Dhcpd {
    conf: Config,
    leases: HashMap<u32, Lease>,
    last_lease: u32,
    lease_duration: u64,
    strict_server_id: bool,
}

/// The mathematical content of a [`Dhcpd`].
pub struct DhcpdView {
    /// The name of the interface that is served.
    pub intf: Seq<char>,
    /// The address the server itself listens on.
    pub listen_addr: u32,
    /// The first address of the pool.
    pub start: u32,
    /// The address after the last one of the pool.
    pub end: u32,
    pub netmask: u32,
    /// The address that replies to everybody are sent to.
    pub broadcast_addr: u32,
    pub gateway: u32,
    pub dns_servers: Seq<u32>,
    /// The path of the file of static assignments.
    pub lease_static: Seq<char>,
    /// The path of the file the lease table is saved to.
    pub lease_file: Seq<char>,
    /// The lease time as the configuration writes it.
    pub lease_time: Seq<char>,
    /// How long a lease lasts, in whole seconds.
    pub lease_duration: u64,
    /// Whether a request, release or decline that does not name this
    /// server is passed over.
    pub strict_server_id: bool,
    /// The lease table.
    pub leases: Map<u32, Lease>,
    /// The place of the last offer, counted from the start of the pool.
    pub last_lease: u32,
}

/// What the server decides on a message.
#[derive(Clone, Copy, Debug, PartialEq, Eq, Structural)]
pub enum Decision {
    /// Offer this address.
    Offer(u32),
    /// Acknowledge this address.
    Ack(u32),
    /// Refuse the request.
    Nak,
    /// Send nothing.
    Silent,
}

/// A step of the server: the state it goes to, what it decides, and whether
/// the lease table changed and has to be saved.
pub struct Step {
    pub next: DhcpdView,
    pub decision: Decision,
    pub persist: bool,
}

/// What the transport has to do once a message is handled.
#[derive(Clone, Debug, PartialEq, Eq)]
pub struct Outcome {
    /// The reply to send, if any.
    pub reply: Option<Packet>,
    /// Whether the lease table changed and has to be saved.
    pub persist: bool,
}

/// What the transport has to do once a datagram is handled.
#[derive(Clone, Debug, PartialEq, Eq)]
pub struct Served {
    /// The bytes to send and where to send them, if there is a reply.
    pub send: Option<(Vec<u8>, Destination)>,
    /// Whether the lease table changed and has to be saved.
    pub persist: bool,
}

/// How many addresses the pool has.
pub open spec fn spec_pool_size(s: DhcpdView) -> int {
    if s.end > s.start {
        s.end - s.start
    } else {
        0
    }
}

/// Whether `ip` may be given to `mac` at `now`: it is in the pool, and it is
/// bound to nobody, or to `mac`, or its lease has run out.
pub open spec fn spec_available(s: DhcpdView, mac: [u8; 6], ip: u32, now: u128) -> bool {
    &&& s.start <= ip < s.end
    &&& (!s.leases.contains_key(ip) || s.leases[ip].mac == mac || now > s.leases[ip].expiry)
}

/// The instant at which a lease made at `now` runs out: the lease time
/// later, in milliseconds.
pub open spec fn spec_expiry(s: DhcpdView, now: u128) -> int {
    now + 1000 * s.lease_duration
}

/// The lease that binds an address to `mac` from `now` on, for the lease
/// time.
pub open spec fn spec_fresh_lease(s: DhcpdView, mac: [u8; 6], now: u128) -> Lease {
    Lease { mac, expiry: spec_expiry(s, now) as u128 }
}

/// The state after `ip` was bound to `mac` at `now`, over whatever it was
/// bound by.
pub open spec fn spec_insert(s: DhcpdView, ip: u32, mac: [u8; 6], now: u128) -> DhcpdView {
    DhcpdView { leases: s.leases.insert(ip, spec_fresh_lease(s, mac, now)), ..s }
}

/// The state after the place of the last offer moved one address on, round
/// the pool.
pub open spec fn spec_advance(s: DhcpdView) -> DhcpdView {
    DhcpdView { last_lease: ((s.last_lease + 1) % spec_pool_size(s)) as u32, ..s }
}

/// The address at the place of the last offer.
pub open spec fn spec_candidate(s: DhcpdView) -> u32 {
    (s.start + s.last_lease) as u32
}

/// Looks at up to `left` addresses, each time moving one address on: the
/// first that is available to `mac` is the result, and the place of the
/// last offer stays on it.
pub open spec fn spec_scan(s: DhcpdView, mac: [u8; 6], now: u128, left: nat) -> (
    DhcpdView,
    Option<u32>,
)
    decreases left,
{
    if left == 0 {
        (s, None)
    } else {
        let t = spec_advance(s);
        if spec_available(t, mac, spec_candidate(t), now) {
            (t, Some(spec_candidate(t)))
        } else {
            spec_scan(t, mac, now, (left - 1) as nat)
        }
    }
}

/// The next address to offer to `mac`: one round through the pool from
/// the place after the last offer.
pub open spec fn spec_allocate(s: DhcpdView, mac: [u8; 6], now: u128) -> (DhcpdView, Option<u32>) {
    spec_scan(s, mac, now, spec_pool_size(s) as nat)
}

/// The address a request asks for: that of option 50, else the client's
/// own.
pub open spec fn spec_requested(p: PacketView) -> u32 {
    match spec_option(p.options, REQUESTED_IP_ADDRESS) {
        Some(OptionView::RequestedIpAddress(ip)) => ip,
        _ => p.ciaddr,
    }
}

/// Whether a request, release or decline is passed over because it does not
/// name this server.
pub open spec fn spec_passed_over(s: DhcpdView, p: PacketView) -> bool {
    s.strict_server_id && !spec_for_this_server(p, s.listen_addr)
}

/// What the server does on a discover: it offers the client the address
/// it holds, else the next available one, else nothing.
pub open spec fn spec_discover(s: DhcpdView, p: PacketView, now: u128) -> Step {
    match spec_current_lease(s.leases, p.chaddr) {
        Some(ip) => Step { next: s, decision: Decision::Offer(ip), persist: false },
        None => {
            let (next, found) = spec_allocate(s, p.chaddr, now);
            match found {
                Some(ip) => Step { next, decision: Decision::Offer(ip), persist: false },
                None => Step { next, decision: Decision::Silent, persist: false },
            }
        },
    }
}

/// What the server does on a request: it acknowledges the address the
/// client holds, whatever was asked for; else it refuses an address that
/// is not available; else it binds the address asked for to the client
/// for the lease time, and acknowledges it.
pub open spec fn spec_request(s: DhcpdView, p: PacketView, now: u128) -> Step {
    if spec_passed_over(s, p) {
        Step { next: s, decision: Decision::Silent, persist: false }
    } else {
        match spec_current_lease(s.leases, p.chaddr) {
            Some(ip) => Step { next: s, decision: Decision::Ack(ip), persist: false },
            None => {
                let ip = spec_requested(p);
                if !spec_available(s, p.chaddr, ip, now) {
                    Step { next: s, decision: Decision::Nak, persist: false }
                } else {
                    Step {
                        next: spec_insert(s, ip, p.chaddr, now),
                        decision: Decision::Ack(ip),
                        persist: true,
                    }
                }
            },
        }
    }
}

/// What the server does on a release or a decline: it unbinds the address
/// the client holds, and sends nothing.
pub open spec fn spec_release(s: DhcpdView, p: PacketView) -> Step {
    if spec_passed_over(s, p) {
        Step { next: s, decision: Decision::Silent, persist: false }
    } else {
        match spec_current_lease(s.leases, p.chaddr) {
            Some(ip) => Step {
                next: DhcpdView { leases: s.leases.remove(ip), ..s },
                decision: Decision::Silent,
                persist: true,
            },
            None => Step { next: s, decision: Decision::Silent, persist: false },
        }
    }
}

/// What the server does on the message `p` that comes in at `now`.
pub open spec fn spec_step(s: DhcpdView, p: PacketView, now: u128) -> Step {
    match spec_message_type(p.options) {
        Ok(MessageType::Discover) => spec_discover(s, p, now),
        Ok(MessageType::Request) => spec_request(s, p, now),
        Ok(MessageType::Release) => spec_release(s, p),
        Ok(MessageType::Decline) => spec_release(s, p),
        _ => Step { next: s, decision: Decision::Silent, persist: false },
    }
}

/// The options of every offer and acknowledgement: lease time, subnet
/// mask, router, name servers.
pub open spec fn spec_lease_options(s: DhcpdView) -> Seq<OptionView> {
    seq![
        OptionView::IpAddressLeaseTime(spec_lease_secs(s.lease_duration)),
        OptionView::SubnetMask(s.netmask),
        OptionView::Router(seq![s.gateway]),
        OptionView::DomainNameServer(s.dns_servers),
    ]
}

/// The offer or acknowledgement of `ip` in reply to `p`.
pub open spec fn spec_grant(s: DhcpdView, t: MessageType, p: PacketView, ip: u32) -> PacketView {
    spec_reply(t, spec_lease_options(s), ip, p)
}

/// The refusal in reply to `p`, with `message` as the reason: it gives out
/// no address and carries nothing else.
pub open spec fn spec_nak(p: PacketView, message: Seq<char>) -> PacketView {
    spec_reply(MessageType::Nak, seq![OptionView::Message(message)], 0, p)
}

/// The reply that carries out `decision` on the message `p`.
pub open spec fn spec_answer(s: DhcpdView, decision: Decision, p: PacketView) -> Option<
    PacketView,
> {
    match decision {
        Decision::Offer(ip) => Some(spec_grant(s, MessageType::Offer, p, ip)),
        Decision::Ack(ip) => Some(spec_grant(s, MessageType::Ack, p, ip)),
        Decision::Nak => Some(spec_nak(p, NOT_AVAILABLE@)),
        Decision::Silent => None,
    }
}

/// The content of a reply, if there is one.
pub open spec fn spec_reply_view(reply: Option<Packet>) -> Option<PacketView> {
    match reply {
        Some(packet) => Some(packet@),
        None => None,
    }
}

/// What is sent in answer to the message `p` on which the server decides
/// `decision`: the reply as it stands on the wire, and where it goes.
pub open spec fn spec_sent(s: DhcpdView, decision: Decision, p: PacketView) -> Option<
    (Seq<u8>, Destination),
> {
    match spec_answer(s, decision, p) {
        Some(reply) => Some((spec_encode(reply), spec_destination(p, reply.yiaddr))),
        None => None,
    }
}

/// What the server does on the datagram `bytes` that comes in at `now`: a
/// datagram that is no message is dropped, any other is handled as the
/// message it holds.
pub open spec fn spec_serve(s: DhcpdView, bytes: Seq<u8>, now: u128) -> (
    DhcpdView,
    Option<(Seq<u8>, Destination)>,
    bool,
) {
    match spec_decode(bytes) {
        Err(_) => (s, None, false),
        Ok(p) => {
            let step = spec_step(s, p, now);
            (step.next, spec_sent(s, step.decision, p), step.persist)
        },
    }
}

/// The content of what is to be sent, if anything is.
pub open spec fn spec_send_view(send: Option<(Vec<u8>, Destination)>) -> Option<
    (Seq<u8>, Destination),
> {
    match send {
        Some((bytes, to)) => Some((bytes@, to)),
        None => None,
    }
}

/// The lease time that replies announce where leases last `secs` seconds:
/// the seconds as far as 32 bits hold them.
pub open spec fn spec_lease_secs(secs: u64) -> u32 {
    (secs % 0x1_0000_0000) as u32
}

/// The state of a server set up with `conf`, with static assignments
/// `statics` and leases of `secs` seconds, on what was saved as
/// `persisted`: the whole of `conf` is kept.
pub open spec fn spec_started(
    conf: Config,
    persisted: Seq<(u32, Lease)>,
    statics: Seq<StaticAssignment>,
    secs: u64,
    now: u128,
) -> DhcpdView {
    let leases = spec_loaded(persisted, statics, now);
    DhcpdView {
        intf: conf.intf@,
        listen_addr: conf.listen_addr,
        start: conf.start,
        end: conf.end,
        netmask: conf.netmask,
        broadcast_addr: conf.broadcast,
        gateway: conf.gateway,
        dns_servers: conf.dns_servers@,
        lease_static: conf.lease_static@,
        lease_file: conf.lease_file@,
        lease_time: conf.lease_time@,
        lease_duration: secs,
        strict_server_id: false,
        leases,
        last_lease: spec_start_cursor(leases, conf.start, conf.end),
    }
}

/// `duration_str::parse`: the duration read from `text`, as its whole
/// seconds and the nanoseconds beyond them, or nothing where the text is
/// refused. The result depends on `text` alone.
#[verifier::external_body]
fn parse_duration(text: &str) -> (duration: Option<(u64, u32)>)
    ensures
        duration == spec_duration(text@),
{
    match duration_str::parse(text) {
        Ok(duration) => Some((duration.as_secs(), duration.subsec_nanos())),
        Err(_) => None,
    }
}

impl View for Dhcpd {
    type V = DhcpdView;

    closed spec fn view(&self) -> DhcpdView {
        DhcpdView {
            intf: self.conf.intf@,
            listen_addr: self.conf.listen_addr,
            start: self.conf.start,
            end: self.conf.end,
            netmask: self.conf.netmask,
            broadcast_addr: self.conf.broadcast,
            gateway: self.conf.gateway,
            dns_servers: self.conf.dns_servers@,
            lease_static: self.conf.lease_static@,
            lease_file: self.conf.lease_file@,
            lease_time: self.conf.lease_time@,
            lease_duration: self.lease_duration,
            strict_server_id: self.strict_server_id,
            leases: self.leases@,
            last_lease: self.last_lease,
        }
    }
}

impl Dhcpd {
    /// Sets a server up. `persisted` is the lease table as it was saved
    /// last, `static_lines` are the lines of the file of static
    /// assignments, `now` is the time in milliseconds since the epoch.
    ///
    /// A malformed line among `static_lines` is an error, and so is a
    /// lease time that is no duration.
    pub fn new(conf: Config, persisted: Vec<(u32, Lease)>, static_lines: Vec<String>, now: u128) -> (r:
        Result<Dhcpd, StartupError>)
        requires
            now + INFINITE_LEASE <= u128::MAX,
        ensures
            match r {
                Ok(server) => spec_static_lines(static_lines.deep_view()) is Ok
                    && spec_whole_secs(conf.lease_time@) is Some && server@ == spec_started(
                    conf,
                    persisted@,
                    spec_static_lines(static_lines.deep_view())->Ok_0,
                    spec_whole_secs(conf.lease_time@)->0,
                    now,
                ),
                Err(StartupError::StaticLine(at)) => spec_static_lines(static_lines.deep_view())
                    == Err::<Seq<StaticAssignment>, nat>(at as nat),
                Err(StartupError::LeaseTime) => spec_static_lines(static_lines.deep_view()) is Ok
                    && spec_whole_secs(conf.lease_time@) is None,
            },
    {
        let statics = match parse_static_lines(&static_lines) {
            Ok(found) => found,
            Err(at) => {
                return Err(StartupError::StaticLine(at));
            },
        };
        match parse_duration(conf.lease_time.as_str()) {
            Some((secs, _)) => Ok(Dhcpd::with_leases(conf, persisted, statics, secs, now)),
            None => Err(StartupError::LeaseTime),
        }
    }

    /// Sets a server up with static assignments and a lease time that were
    /// read already: the lease table is what was saved as `persisted` with
    /// `statics` written over it, and the round of offers begins at the
    /// highest bound address of the pool.
    pub fn with_leases(
        conf: Config,
        persisted: Vec<(u32, Lease)>,
        statics: Vec<StaticAssignment>,
        secs: u64,
        now: u128,
    ) -> (server: Dhcpd)
        requires
            now + INFINITE_LEASE <= u128::MAX,
        ensures
            server@ == spec_started(conf, persisted@, statics@, secs, now),
    {
        let (leases, last_lease) = load_leases(&persisted, &statics, conf.start, conf.end, now);
        Dhcpd { conf, leases, last_lease, lease_duration: secs, strict_server_id: false }
    }

    /// Chooses whether a request, release or decline that does not name
    /// this server in its server identifier is passed over.
    pub fn set_strict_server_id(&mut self, strict: bool)
        ensures
            final(self)@ == (DhcpdView { strict_server_id: strict, ..old(self)@ }),
    {
        self.strict_server_id = strict;
    }

    /// The first address of the pool.
    pub fn start_num(&self) -> (n: u32)
        ensures
            n == self@.start,
    {
        self.conf.start
    }

    /// The address after the last one of the pool.
    pub fn end_num(&self) -> (n: u32)
        ensures
            n == self@.end,
    {
        self.conf.end
    }

    /// How many addresses the pool has.
    pub fn lease_nums(&self) -> (n: u32)
        ensures
            n == spec_pool_size(self@),
    {
        if self.conf.end > self.conf.start {
            self.conf.end - self.conf.start
        } else {
            0
        }
    }

    /// The subnet mask that replies announce.
    pub fn subnet_mask(&self) -> (mask: u32)
        ensures
            mask == self@.netmask,
    {
        self.conf.netmask
    }

    /// The router that replies announce.
    pub fn gateway_ip(&self) -> (ip: u32)
        ensures
            ip == self@.gateway,
    {
        self.conf.gateway
    }

    /// The name servers that replies announce.
    pub fn dns_servers(&self) -> (servers: Vec<u32>)
        ensures
            servers@ == self@.dns_servers,
    {
        let servers = self.conf.dns_servers.clone();
        assert(servers@ =~= self.conf.dns_servers@);
        servers
    }

    /// How long a lease lasts, in whole seconds.
    pub fn lease_duration(&self) -> (secs: u64)
        ensures
            secs == self@.lease_duration,
    {
        self.lease_duration
    }

    /// The configuration the server was set up with.
    pub fn conf(&self) -> (conf: &Config)
        ensures
            conf.intf@ == self@.intf,
            conf.listen_addr == self@.listen_addr,
            conf.start == self@.start,
            conf.end == self@.end,
            conf.netmask == self@.netmask,
            conf.broadcast == self@.broadcast_addr,
            conf.gateway == self@.gateway,
            conf.dns_servers@ == self@.dns_servers,
            conf.lease_static@ == self@.lease_static,
            conf.lease_file@ == self@.lease_file,
            conf.lease_time@ == self@.lease_time,
    {
        &self.conf
    }

    /// The lease time that replies announce, in seconds: the lease time as
    /// far as 32 bits hold it.
    pub fn lease_secs(&self) -> (secs: u32)
        ensures
            secs == spec_lease_secs(self@.lease_duration),
    {
        (self.lease_duration % 0x1_0000_0000) as u32
    }

    /// The address the server itself listens on.
    pub fn listen_addr(&self) -> (ip: u32)
        ensures
            ip == self@.listen_addr,
    {
        self.conf.listen_addr
    }

    /// The place of the last offer, counted from the start of the pool.
    pub fn last_lease(&self) -> (at: u32)
        ensures
            at == self@.last_lease,
    {
        self.last_lease
    }

    /// The lease that `ip` is bound by, if it is bound.
    pub fn lease(&self, ip: u32) -> (found: Option<Lease>)
        ensures
            found == (if self@.leases.contains_key(ip) {
                Some(self@.leases[ip])
            } else {
                None
            }),
    {
        match self.leases.get(&ip) {
            Some(lease) => Some(*lease),
            None => None,
        }
    }

    /// Whether `addr` may be given to `chaddr` at `now`.
    pub fn available(&self, chaddr: &[u8; 6], addr: u32, now: u128) -> (free: bool)
        ensures
            free == spec_available(self@, *chaddr, addr, now),
    {
        addr >= self.conf.start && addr < self.conf.end && match self.leases.get(&addr) {
            Some(lease) => mac_eq(&lease.mac, chaddr) || now > lease.expiry,
            None => true,
        }
    }

    /// The address that `chaddr` holds: the lowest one, should it hold
    /// several.
    pub fn current_lease(&self, chaddr: &[u8; 6]) -> (found: Option<u32>)
        ensures
            found == spec_current_lease(self@.leases, *chaddr),
    {
        current_lease_in(&self.leases, chaddr)
    }

    /// Binds `ip` to `chaddr` from `now` on for the lease time, over
    /// whatever `ip` was bound by. The lease table is to be saved after it.
    pub fn insert(&mut self, ip: u32, chaddr: [u8; 6], now: u128)
        requires
            spec_expiry(old(self)@, now) <= u128::MAX,
        ensures
            final(self)@ == spec_insert(old(self)@, ip, chaddr, now),
    {
        let lasts: u128 = 1000 * (self.lease_duration as u128);
        self.leases.insert(ip, Lease::new(chaddr, now + lasts));
    }

    /// Unbinds `ip`, if it is bound. The lease table is to be saved after
    /// it.
    pub fn remove(&mut self, ip: u32)
        ensures
            final(self)@ == (DhcpdView { leases: old(self)@.leases.remove(ip), ..old(self)@ }),
    {
        self.leases.remove(&ip);
    }

    /// The lease table as it is to be saved: each binding once.
    pub fn save_leases(&self) -> (entries: Vec<(u32, Lease)>)
        ensures
            spec_lists(entries@, self@.leases),
            entries.len() == self@.leases.len(),
            forall|i: int, j: int|
                0 <= i < j < entries.len() ==> (#[trigger] entries[i]).0 != (#[trigger] entries[j]).0,
    {
        lease_entries(&self.leases)
    }

    /// The next address to offer to `chaddr`: one round through the pool
    /// from the place after the last offer. The address that is found is in
    /// the pool.
    pub fn allocate(&mut self, chaddr: &[u8; 6], now: u128) -> (found: Option<u32>)
        ensures
            (final(self)@, found) == spec_allocate(old(self)@, *chaddr, now),
            found matches Some(ip) ==> old(self)@.start <= ip < old(self)@.end,
            final(self)@ == (DhcpdView { last_lease: final(self)@.last_lease, ..old(self)@ }),
    {
        let n = self.lease_nums();
        let mut tried: u32 = 0;
        while tried < n
            invariant
                tried <= n,
                n == spec_pool_size(self@),
                n > 0 ==> tried > 0 ==> self.last_lease < n,
                self@ == (DhcpdView { last_lease: self.last_lease, ..old(self)@ }),
                spec_allocate(old(self)@, *chaddr, now) == spec_scan(
                    self@,
                    *chaddr,
                    now,
                    (n - tried) as nat,
                ),
            decreases n - tried,
        {
            let next = (self.last_lease as u64 + 1) % (n as u64);
            self.last_lease = next as u32;
            tried += 1;
            let ip = self.conf.start + self.last_lease;
            if self.available(chaddr, ip, now) {
                return Some(ip);
            }
        }
        None
    }

    /// The refusal in reply to `req_packet`, with `message` as the reason.
    pub fn nak(&self, req_packet: &Packet, message: &str) -> (packet: Packet)
        ensures
            packet@ == spec_nak(req_packet@, message@),
    {
        let mut options: Vec<DhcpOption> = Vec::new();
        options.push(DhcpOption::Message(String::from_str(message)));
        assert(options.deep_view() =~= seq![OptionView::Message(message@)]);
        reply(MessageType::Nak, options, 0, req_packet)
    }

    /// The offer or acknowledgement of `offer_ip` in reply to `req_packet`,
    /// with the lease time, the subnet mask, the router and the name
    /// servers.
    pub fn reply(&self, msg_type: MessageType, req_packet: &Packet, offer_ip: u32) -> (packet:
        Packet)
        ensures
            packet@ == spec_grant(self@, msg_type, req_packet@, offer_ip),
    {
        let mut routers: Vec<u32> = Vec::new();
        routers.push(self.gateway_ip());
        assert(routers@ =~= seq![self@.gateway]);
        let mut options: Vec<DhcpOption> = Vec::new();
        options.push(DhcpOption::IpAddressLeaseTime(self.lease_secs()));
        options.push(DhcpOption::SubnetMask(self.subnet_mask()));
        options.push(DhcpOption::Router(routers));
        options.push(DhcpOption::DomainNameServer(self.dns_servers()));
        assert(options.deep_view() =~= spec_lease_options(self@));
        reply(msg_type, options, offer_ip, req_packet)
    }

    /// The address that `in_packet` asks for.
    pub fn requested(in_packet: &Packet) -> (ip: u32)
        ensures
            ip == spec_requested(in_packet@),
    {
        match in_packet.option(REQUESTED_IP_ADDRESS) {
            Some(DhcpOption::RequestedIpAddress(ip)) => *ip,
            _ => in_packet.ciaddr,
        }
    }

    /// Handles the message `in_packet` that came in at `now`: the lease
    /// table and the place of the last offer change as the message asks,
    /// and the result holds the reply to send, if any, and says whether
    /// the lease table has to be saved.
    pub fn handle_request(&mut self, in_packet: &Packet, now: u128) -> (outcome: Outcome)
        requires
            spec_expiry(old(self)@, now) <= u128::MAX,
        ensures
            final(self)@ == spec_step(old(self)@, in_packet@, now).next,
            outcome.persist == spec_step(old(self)@, in_packet@, now).persist,
            spec_reply_view(outcome.reply) == spec_answer(
                old(self)@,
                spec_step(old(self)@, in_packet@, now).decision,
                in_packet@,
            ),
    {
        match in_packet.message_type() {
            Ok(MessageType::Discover) => {
                if let Some(ip) = self.current_lease(&in_packet.chaddr) {
                    return Outcome {
                        reply: Some(self.reply(MessageType::Offer, in_packet, ip)),
                        persist: false,
                    };
                }
                match self.allocate(&in_packet.chaddr, now) {
                    Some(ip) => Outcome {
                        reply: Some(self.reply(MessageType::Offer, in_packet, ip)),
                        persist: false,
                    },
                    None => Outcome { reply: None, persist: false },
                }
            },
            Ok(MessageType::Request) => {
                if self.strict_server_id && !for_this_server(in_packet, self.conf.listen_addr) {
                    return Outcome { reply: None, persist: false };
                }
                let req_ip = Dhcpd::requested(in_packet);
                if let Some(ip) = self.current_lease(&in_packet.chaddr) {
                    return Outcome {
                        reply: Some(self.reply(MessageType::Ack, in_packet, ip)),
                        persist: false,
                    };
                }
                if !self.available(&in_packet.chaddr, req_ip, now) {
                    return Outcome {
                        reply: Some(self.nak(in_packet, NOT_AVAILABLE)),
                        persist: false,
                    };
                }
                self.insert(req_ip, in_packet.chaddr, now);
                Outcome {
                    reply: Some(self.reply(MessageType::Ack, in_packet, req_ip)),
                    persist: true,
                }
            },
            Ok(MessageType::Release) | Ok(MessageType::Decline) => {
                if self.strict_server_id && !for_this_server(in_packet, self.conf.listen_addr) {
                    return Outcome { reply: None, persist: false };
                }
                match self.current_lease(&in_packet.chaddr) {
                    Some(ip) => {
                        self.remove(ip);
                        Outcome { reply: None, persist: true }
                    },
                    None => Outcome { reply: None, persist: false },
                }
            },
            _ => Outcome { reply: None, persist: false },
        }
    }

    /// Handles the datagram `datagram` that came in at `now`. A datagram
    /// that is no message is dropped: nothing changes and nothing is sent.
    /// Any other is handled as the message it holds, and the result holds
    /// the bytes of the reply and where they go, if there is a reply, and
    /// says whether the lease table has to be saved.
    pub fn handle_datagram(&mut self, datagram: &[u8], now: u128) -> (served: Served)
        requires
            spec_expiry(old(self)@, now) <= u128::MAX,
        ensures
            final(self)@ == spec_serve(old(self)@, datagram@, now).0,
            spec_send_view(served.send) == spec_serve(old(self)@, datagram@, now).1,
            served.persist == spec_serve(old(self)@, datagram@, now).2,
    {
        let in_packet = match Packet::decode(datagram) {
            Ok(packet) => packet,
            Err(_) => {
                return Served { send: None, persist: false };
            },
        };
        let outcome = self.handle_request(&in_packet, now);
        let send = match outcome.reply {
            Some(packet) => Some((packet.encode(), destination(&in_packet, packet.yiaddr))),
            None => None,
        };
        Served { send, persist: outcome.persist }
    }
}

} // verus!
