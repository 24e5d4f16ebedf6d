//! DHCP options: the typed options this server reads and writes, and how
//! each stands on the wire as a tag, a length and a payload.

use vstd::prelude::*;
use vstd::utf8::{decode_utf8, encode_utf8, valid_utf8};
use crate::addr::{
    be_bytes, ipv4, spec_addrs_bytes, spec_be_bytes, spec_be_u32_at, spec_bytes_addrs,
};

verus! {

/// The tag of the subnet mask.
pub const SUBNET_MASK: u8 = 1;

/// The tag of the list of routers.
pub const ROUTER: u8 = 3;

/// The tag of the list of name servers.
pub const DOMAIN_NAME_SERVER: u8 = 6;

/// The tag of the address a client asks for.
pub const REQUESTED_IP_ADDRESS: u8 = 50;

/// The tag of the lease time, in seconds.
pub const IP_ADDRESS_LEASE_TIME: u8 = 51;

/// The tag of the message type.
pub const DHCP_MESSAGE_TYPE: u8 = 53;

/// The tag of the address of the server a message is meant for or comes
/// from.
pub const SERVER_IDENTIFIER: u8 = 54;

/// The tag of a text for the reader of a refusal.
pub const MESSAGE: u8 = 56;

/// The tag that closes the options. It has no length and no payload.
pub const END: u8 = 255;

/// The longest payload one option can carry.
pub const MAX_PAYLOAD: usize = 255;

/// The most addresses one option can carry.
pub const MAX_ADDRESSES: usize = 63;

/// What a DHCP message is for: the value of option 53.
#[derive(Clone, Copy, Debug, PartialEq, Eq, Structural)]
pub enum MessageType {
    Discover,
    Offer,
    Request,
    Decline,
    Ack,
    Nak,
    Release,
    Inform,
}

impl MessageType {
    /// The number that stands for this type on the wire.
    pub open spec fn spec_code(self) -> u8 {
        match self {
            MessageType::Discover => 1,
            MessageType::Offer => 2,
            MessageType::Request => 3,
            MessageType::Decline => 4,
            MessageType::Ack => 5,
            MessageType::Nak => 6,
            MessageType::Release => 7,
            MessageType::Inform => 8,
        }
    }

    /// The type that `code` stands for, if it stands for one.
    pub open spec fn spec_from_code(code: u8) -> Option<MessageType> {
        if code == 1 {
            Some(MessageType::Discover)
        } else if code == 2 {
            Some(MessageType::Offer)
        } else if code == 3 {
            Some(MessageType::Request)
        } else if code == 4 {
            Some(MessageType::Decline)
        } else if code == 5 {
            Some(MessageType::Ack)
        } else if code == 6 {
            Some(MessageType::Nak)
        } else if code == 7 {
            Some(MessageType::Release)
        } else if code == 8 {
            Some(MessageType::Inform)
        } else {
            None
        }
    }

    /// The number that stands for this type on the wire.
    pub fn code(self) -> (code: u8)
        ensures
            code == self.spec_code(),
    {
        match self {
            MessageType::Discover => 1,
            MessageType::Offer => 2,
            MessageType::Request => 3,
            MessageType::Decline => 4,
            MessageType::Ack => 5,
            MessageType::Nak => 6,
            MessageType::Release => 7,
            MessageType::Inform => 8,
        }
    }

    /// The type that `code` stands for, if it stands for one.
    pub fn from_code(code: u8) -> (t: Option<MessageType>)
        ensures
            t == MessageType::spec_from_code(code),
    {
        match code {
            1 => Some(MessageType::Discover),
            2 => Some(MessageType::Offer),
            3 => Some(MessageType::Request),
            4 => Some(MessageType::Decline),
            5 => Some(MessageType::Ack),
            6 => Some(MessageType::Nak),
            7 => Some(MessageType::Release),
            8 => Some(MessageType::Inform),
            _ => None,
        }
    }

    /// A code and its type stand for each other.
    pub proof fn lemma_code_round_trip(self)
        ensures
            MessageType::spec_from_code(self.spec_code()) == Some(self),
    {
    }
}

/// One option of a DHCP message.
///
/// An option whose tag this server does not know, or whose payload does not
/// have the shape its tag asks for, is kept as `Unrecognized` with the tag
/// and the bytes it came with.
#[derive(Clone, Debug, PartialEq, Eq)]
pub enum DhcpOption {
    DhcpMessageType(MessageType),
    ServerIdentifier(u32),
    RequestedIpAddress(u32),
    IpAddressLeaseTime(u32),
    SubnetMask(u32),
    Router(Vec<u32>),
    DomainNameServer(Vec<u32>),
    Message(String),
    Unrecognized(u8, Vec<u8>),
}

/// The mathematical content of a [`DhcpOption`].
pub enum OptionView {
    DhcpMessageType(MessageType),
    ServerIdentifier(u32),
    RequestedIpAddress(u32),
    IpAddressLeaseTime(u32),
    SubnetMask(u32),
    Router(Seq<u32>),
    DomainNameServer(Seq<u32>),
    Message(Seq<char>),
    Unrecognized(u8, Seq<u8>),
}

impl View for DhcpOption {
    type V = OptionView;

    open spec fn view(&self) -> OptionView {
        match *self {
            DhcpOption::DhcpMessageType(t) => OptionView::DhcpMessageType(t),
            DhcpOption::ServerIdentifier(ip) => OptionView::ServerIdentifier(ip),
            DhcpOption::RequestedIpAddress(ip) => OptionView::RequestedIpAddress(ip),
            DhcpOption::IpAddressLeaseTime(secs) => OptionView::IpAddressLeaseTime(secs),
            DhcpOption::SubnetMask(mask) => OptionView::SubnetMask(mask),
            DhcpOption::Router(addrs) => OptionView::Router(addrs@),
            DhcpOption::DomainNameServer(addrs) => OptionView::DomainNameServer(addrs@),
            DhcpOption::Message(text) => OptionView::Message(text@),
            DhcpOption::Unrecognized(code, data) => OptionView::Unrecognized(code, data@),
        }
    }
}

impl DeepView for DhcpOption {
    type V = OptionView;

    open spec fn deep_view(&self) -> OptionView {
        self.view()
    }
}

/// The tag under which an option stands on the wire.
pub open spec fn spec_code(o: OptionView) -> u8 {
    match o {
        OptionView::DhcpMessageType(_) => DHCP_MESSAGE_TYPE,
        OptionView::ServerIdentifier(_) => SERVER_IDENTIFIER,
        OptionView::RequestedIpAddress(_) => REQUESTED_IP_ADDRESS,
        OptionView::IpAddressLeaseTime(_) => IP_ADDRESS_LEASE_TIME,
        OptionView::SubnetMask(_) => SUBNET_MASK,
        OptionView::Router(_) => ROUTER,
        OptionView::DomainNameServer(_) => DOMAIN_NAME_SERVER,
        OptionView::Message(_) => MESSAGE,
        OptionView::Unrecognized(code, _) => code,
    }
}

/// The first `n` items of `s`, or all of `s` where it has fewer.
pub open spec fn spec_at_most<T>(s: Seq<T>, n: int) -> Seq<T> {
    if s.len() <= n {
        s
    } else {
        s.take(n)
    }
}

/// The payload with which an option stands on the wire. A length is one
/// byte, so a list keeps its first 63 addresses, and a text or an
/// unrecognized payload its first 255 bytes.
pub open spec fn spec_wire_payload(o: OptionView) -> Seq<u8> {
    match o {
        OptionView::DhcpMessageType(t) => seq![t.spec_code()],
        OptionView::ServerIdentifier(ip) => spec_be_bytes(ip),
        OptionView::RequestedIpAddress(ip) => spec_be_bytes(ip),
        OptionView::IpAddressLeaseTime(secs) => spec_be_bytes(secs),
        OptionView::SubnetMask(mask) => spec_be_bytes(mask),
        OptionView::Router(addrs) => spec_addrs_bytes(spec_at_most(addrs, MAX_ADDRESSES as int)),
        OptionView::DomainNameServer(addrs) => spec_addrs_bytes(
            spec_at_most(addrs, MAX_ADDRESSES as int),
        ),
        OptionView::Message(text) => spec_at_most(encode_utf8(text), MAX_PAYLOAD as int),
        OptionView::Unrecognized(_, data) => spec_at_most(data, MAX_PAYLOAD as int),
    }
}

/// The option as it stands on the wire: tag, length, payload.
pub open spec fn spec_wire(o: OptionView) -> Seq<u8> {
    seq![spec_code(o), spec_wire_payload(o).len() as u8] + spec_wire_payload(o)
}

/// The option that a tag and a payload stand for.
pub open spec fn spec_typed(code: u8, data: Seq<u8>) -> OptionView {
    if code == DHCP_MESSAGE_TYPE && data.len() == 1 && MessageType::spec_from_code(data[0])
        is Some {
        OptionView::DhcpMessageType(MessageType::spec_from_code(data[0])->0)
    } else if code == SERVER_IDENTIFIER && data.len() == 4 {
        OptionView::ServerIdentifier(spec_be_u32_at(data, 0))
    } else if code == REQUESTED_IP_ADDRESS && data.len() == 4 {
        OptionView::RequestedIpAddress(spec_be_u32_at(data, 0))
    } else if code == IP_ADDRESS_LEASE_TIME && data.len() == 4 {
        OptionView::IpAddressLeaseTime(spec_be_u32_at(data, 0))
    } else if code == SUBNET_MASK && data.len() == 4 {
        OptionView::SubnetMask(spec_be_u32_at(data, 0))
    } else if code == ROUTER && data.len() % 4 == 0 {
        OptionView::Router(spec_bytes_addrs(data))
    } else if code == DOMAIN_NAME_SERVER && data.len() % 4 == 0 {
        OptionView::DomainNameServer(spec_bytes_addrs(data))
    } else if code == MESSAGE && valid_utf8(data) {
        OptionView::Message(decode_utf8(data))
    } else {
        OptionView::Unrecognized(code, data)
    }
}

/// The bytes of a list of addresses are four for each address.
pub proof fn lemma_addrs_bytes_len(addrs: Seq<u32>)
    ensures
        spec_addrs_bytes(addrs).len() == 4 * addrs.len(),
    decreases addrs.len(),
{
    if addrs.len() > 0 {
        lemma_addrs_bytes_len(addrs.drop_last());
    }
}

/// No payload on the wire is longer than one byte can say.
pub proof fn lemma_wire_payload_len(o: OptionView)
    ensures
        spec_wire_payload(o).len() <= MAX_PAYLOAD,
{
    match o {
        OptionView::Router(addrs) => {
            lemma_addrs_bytes_len(spec_at_most(addrs, MAX_ADDRESSES as int));
        },
        OptionView::DomainNameServer(addrs) => {
            lemma_addrs_bytes_len(spec_at_most(addrs, MAX_ADDRESSES as int));
        },
        _ => {},
    }
}

/// `String::from_utf8` of std: the text that `data` encodes, where `data` is
/// well-formed UTF-8, and nothing where it is not.
#[verifier::external_body]
fn text_from_utf8(data: Vec<u8>) -> (text: Option<String>)
    ensures
        match text {
            Some(s) => valid_utf8(data@) && s@ == decode_utf8(data@),
            None => !valid_utf8(data@),
        },
{
    String::from_utf8(data).ok()
}

/// The first `limit` bytes of `data`, or all of them where there are fewer.
fn copy_at_most(data: &[u8], limit: usize) -> (out: Vec<u8>)
    ensures
        out@ == spec_at_most(data@, limit as int),
{
    let n = if data.len() <= limit { data.len() } else { limit };
    let mut out: Vec<u8> = Vec::new();
    let mut i: usize = 0;
    while i < n
        invariant
            i <= n,
            n <= data.len(),
            out@ == data@.take(i as int),
        decreases n - i,
    {
        out.push(data[i]);
        i += 1;
    }
    assert(data@.take(data.len() as int) == data@);
    out
}

/// The bytes of the first `MAX_ADDRESSES` addresses of `addrs`.
fn addrs_payload(addrs: &Vec<u32>) -> (out: Vec<u8>)
    ensures
        out@ == spec_addrs_bytes(spec_at_most(addrs@, MAX_ADDRESSES as int)),
{
    let n = if addrs.len() <= MAX_ADDRESSES { addrs.len() } else { MAX_ADDRESSES };
    let mut out: Vec<u8> = Vec::new();
    let mut i: usize = 0;
    while i < n
        invariant
            i <= n,
            n <= addrs.len(),
            out@ == spec_addrs_bytes(addrs@.take(i as int)),
        decreases n - i,
    {
        let b = be_bytes(addrs[i]);
        out.push(b[0]);
        out.push(b[1]);
        out.push(b[2]);
        out.push(b[3]);
        proof {
            let next = addrs@.take(i + 1);
            assert(next.drop_last() == addrs@.take(i as int));
            assert(next.last() == addrs[i as int]);
            assert(out@ == spec_addrs_bytes(addrs@.take(i as int)) + spec_be_bytes(
                addrs[i as int],
            ));
        }
        i += 1;
    }
    assert(addrs@.take(addrs.len() as int) == addrs@);
    out
}

/// The addresses that `data` holds, four bytes each.
fn addrs_of_payload(data: &[u8]) -> (addrs: Vec<u32>)
    ensures
        addrs@ == spec_bytes_addrs(data@),
{
    let n = data.len() / 4;
    let mut addrs: Vec<u32> = Vec::new();
    let mut i: usize = 0;
    while i < n
        invariant
            i <= n,
            n == data.len() / 4,
            addrs.len() == i,
            forall|j: int| 0 <= j < i ==> addrs[j] == spec_be_u32_at(data@, 4 * j),
        decreases n - i,
    {
        let at = 4 * i;
        addrs.push(ipv4(data[at], data[at + 1], data[at + 2], data[at + 3]));
        i += 1;
    }
    assert(addrs@ =~= spec_bytes_addrs(data@));
    addrs
}

impl DhcpOption {
    /// The tag under which this option stands on the wire.
    pub fn code(&self) -> (code: u8)
        ensures
            code == spec_code(self@),
    {
        match self {
            DhcpOption::DhcpMessageType(_) => DHCP_MESSAGE_TYPE,
            DhcpOption::ServerIdentifier(_) => SERVER_IDENTIFIER,
            DhcpOption::RequestedIpAddress(_) => REQUESTED_IP_ADDRESS,
            DhcpOption::IpAddressLeaseTime(_) => IP_ADDRESS_LEASE_TIME,
            DhcpOption::SubnetMask(_) => SUBNET_MASK,
            DhcpOption::Router(_) => ROUTER,
            DhcpOption::DomainNameServer(_) => DOMAIN_NAME_SERVER,
            DhcpOption::Message(_) => MESSAGE,
            DhcpOption::Unrecognized(code, _) => *code,
        }
    }

    /// The payload with which this option stands on the wire.
    pub fn wire_payload(&self) -> (payload: Vec<u8>)
        ensures
            payload@ == spec_wire_payload(self@),
            payload.len() <= MAX_PAYLOAD,
    {
        proof {
            lemma_wire_payload_len(self@);
        }
        match self {
            DhcpOption::DhcpMessageType(t) => {
                let mut payload: Vec<u8> = Vec::new();
                payload.push(t.code());
                assert(payload@ == seq![t.spec_code()]);
                payload
            },
            DhcpOption::ServerIdentifier(ip) => copy_at_most(be_bytes(*ip).as_slice(), 4),
            DhcpOption::RequestedIpAddress(ip) => copy_at_most(be_bytes(*ip).as_slice(), 4),
            DhcpOption::IpAddressLeaseTime(secs) => copy_at_most(be_bytes(*secs).as_slice(), 4),
            DhcpOption::SubnetMask(mask) => copy_at_most(be_bytes(*mask).as_slice(), 4),
            DhcpOption::Router(addrs) => addrs_payload(addrs),
            DhcpOption::DomainNameServer(addrs) => addrs_payload(addrs),
            DhcpOption::Message(text) => copy_at_most(text.as_str().as_bytes(), MAX_PAYLOAD),
            DhcpOption::Unrecognized(_, data) => copy_at_most(data.as_slice(), MAX_PAYLOAD),
        }
    }

    /// The option that the tag `code` and the payload `data` stand for.
    pub fn from_wire(code: u8, data: &[u8]) -> (option: DhcpOption)
        ensures
            option@ == spec_typed(code, data@),
    {
        if code == DHCP_MESSAGE_TYPE && data.len() == 1 {
            if let Some(t) = MessageType::from_code(data[0]) {
                return DhcpOption::DhcpMessageType(t);
            }
        } else if code == SERVER_IDENTIFIER && data.len() == 4 {
            return DhcpOption::ServerIdentifier(ipv4(data[0], data[1], data[2], data[3]));
        } else if code == REQUESTED_IP_ADDRESS && data.len() == 4 {
            return DhcpOption::RequestedIpAddress(ipv4(data[0], data[1], data[2], data[3]));
        } else if code == IP_ADDRESS_LEASE_TIME && data.len() == 4 {
            return DhcpOption::IpAddressLeaseTime(ipv4(data[0], data[1], data[2], data[3]));
        } else if code == SUBNET_MASK && data.len() == 4 {
            return DhcpOption::SubnetMask(ipv4(data[0], data[1], data[2], data[3]));
        } else if code == ROUTER && data.len() % 4 == 0 {
            return DhcpOption::Router(addrs_of_payload(data));
        } else if code == DOMAIN_NAME_SERVER && data.len() % 4 == 0 {
            return DhcpOption::DomainNameServer(addrs_of_payload(data));
        } else if code == MESSAGE {
            let copy = copy_at_most(data, data.len());
            if let Some(text) = text_from_utf8(copy) {
                return DhcpOption::Message(text);
            }
        }
        DhcpOption::Unrecognized(code, copy_at_most(data, data.len()))
    }
}

} // verus!
