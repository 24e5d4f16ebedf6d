//! The DHCP message as it travels: a fixed BOOTP header, the magic cookie,
//! and a run of options closed by the end tag.

use vstd::prelude::*;
use crate::addr::{
    be_bytes, ipv4, spec_be_bytes, spec_be_bytes_u16, spec_be_u16_at, spec_be_u32_at,
};
use crate::options::{
    spec_code, spec_typed, spec_wire, DhcpOption, MessageType,
    OptionView, DHCP_MESSAGE_TYPE, END,
};

verus! {

/// The operation code of a message from a client.
pub const BOOT_REQUEST: u8 = 1;

/// The operation code of a message from a server.
pub const BOOT_REPLY: u8 = 2;

/// The length of the fixed header, up to the magic cookie.
pub const HEADER_LEN: usize = 236;

/// Where the options begin: after the header and the magic cookie.
pub const OPTIONS_AT: usize = 240;

/// The four bytes that mark what follows the header as DHCP options.
pub const COOKIE: [u8; 4] = [99, 130, 83, 99];

/// The bit of the flags by which a client asks for a broadcast reply.
pub const BROADCAST_FLAG: u16 = 0x8000;

/// A decoded DHCP message.
#[derive(Clone, Debug, PartialEq, Eq)]
pub struct Packet {
    pub op: u8,
    pub htype: u8,
    pub hlen: u8,
    pub hops: u8,
    pub xid: u32,
    pub secs: u16,
    pub flags: u16,
    pub ciaddr: u32,
    pub yiaddr: u32,
    pub siaddr: u32,
    pub giaddr: u32,
    pub chaddr: [u8; 6],
    pub options: Vec<DhcpOption>,
}

/// The mathematical content of a [`Packet`].
pub struct PacketView {
    pub op: u8,
    pub htype: u8,
    pub hlen: u8,
    pub hops: u8,
    pub xid: u32,
    pub secs: u16,
    pub flags: u16,
    pub ciaddr: u32,
    pub yiaddr: u32,
    pub siaddr: u32,
    pub giaddr: u32,
    pub chaddr: [u8; 6],
    pub options: Seq<OptionView>,
}

impl View for Packet {
    type V = PacketView;

    open spec fn view(&self) -> PacketView {
        PacketView {
            op: self.op,
            htype: self.htype,
            hlen: self.hlen,
            hops: self.hops,
            xid: self.xid,
            secs: self.secs,
            flags: self.flags,
            ciaddr: self.ciaddr,
            yiaddr: self.yiaddr,
            siaddr: self.siaddr,
            giaddr: self.giaddr,
            chaddr: self.chaddr,
            options: self.options.deep_view(),
        }
    }
}

/// Why a datagram is no DHCP message.
#[derive(Clone, Copy, Debug, PartialEq, Eq, Structural)]
pub enum DecodeError {
    /// Shorter than the header and the magic cookie.
    TooShort,
    /// The four bytes after the header are not the magic cookie.
    BadCookie,
}

/// Why a message has no message type.
#[derive(Clone, Copy, Debug, PartialEq, Eq, Structural)]
pub enum MessageTypeError {
    /// No option 53.
    Missing,
    /// Option 53 does not hold one known type.
    Unexpected,
}

/// The options that stand in `bytes` from `pos` on. The walk ends at the end
/// tag, at the end of the bytes, and before an option that the bytes left do
/// not hold in full.
pub open spec fn spec_options_from(bytes: Seq<u8>, pos: int) -> Seq<OptionView>
    decreases bytes.len() - pos,
{
    if pos < 0 || pos + 2 > bytes.len() || bytes[pos] == END {
        Seq::empty()
    } else {
        let next = pos + 2 + bytes[pos + 1] as int;
        if next > bytes.len() {
            Seq::empty()
        } else {
            seq![spec_typed(bytes[pos], bytes.subrange(pos + 2, next))] + spec_options_from(
                bytes,
                next,
            )
        }
    }
}

/// Whether the magic cookie stands in `bytes` after the header.
pub open spec fn spec_has_cookie(bytes: Seq<u8>) -> bool {
    bytes.subrange(HEADER_LEN as int, OPTIONS_AT as int) == COOKIE@
}

/// The message that `bytes` holds.
pub open spec fn spec_decode(bytes: Seq<u8>) -> Result<PacketView, DecodeError> {
    if bytes.len() < OPTIONS_AT {
        Err(DecodeError::TooShort)
    } else if !spec_has_cookie(bytes) {
        Err(DecodeError::BadCookie)
    } else {
        Ok(
            PacketView {
                op: bytes[0],
                htype: bytes[1],
                hlen: bytes[2],
                hops: bytes[3],
                xid: spec_be_u32_at(bytes, 4),
                secs: spec_be_u16_at(bytes, 8),
                flags: spec_be_u16_at(bytes, 10),
                ciaddr: spec_be_u32_at(bytes, 12),
                yiaddr: spec_be_u32_at(bytes, 16),
                siaddr: spec_be_u32_at(bytes, 20),
                giaddr: spec_be_u32_at(bytes, 24),
                chaddr: [bytes[28], bytes[29], bytes[30], bytes[31], bytes[32], bytes[33]],
                options: spec_options_from(bytes, OPTIONS_AT as int),
            },
        )
    }
}

/// The options of a message on the wire, one after the other.
pub open spec fn spec_emit(options: Seq<OptionView>) -> Seq<u8>
    decreases options.len(),
{
    if options.len() == 0 {
        Seq::empty()
    } else {
        spec_emit(options.drop_last()) + spec_wire(options.last())
    }
}

/// `n` zero bytes.
pub open spec fn spec_zeros(n: nat) -> Seq<u8> {
    Seq::new(n, |i: int| 0u8)
}

/// The fixed header of a message. Of the hardware address field the first
/// six bytes are used; the server name and the boot file name are empty.
pub open spec fn spec_header(p: PacketView) -> Seq<u8> {
    seq![p.op, p.htype, p.hlen, p.hops] + spec_be_bytes(p.xid) + spec_be_bytes_u16(p.secs)
        + spec_be_bytes_u16(p.flags) + spec_be_bytes(p.ciaddr) + spec_be_bytes(p.yiaddr)
        + spec_be_bytes(p.siaddr) + spec_be_bytes(p.giaddr) + p.chaddr@ + spec_zeros(202)
}

/// The message on the wire: header, magic cookie, options, end tag.
pub open spec fn spec_encode(p: PacketView) -> Seq<u8> {
    spec_header(p) + COOKIE@ + spec_emit(p.options) + seq![END]
}

/// The first of `options` that stands under `tag`.
pub open spec fn spec_option(options: Seq<OptionView>, tag: u8) -> Option<OptionView>
    decreases options.len(),
{
    if options.len() == 0 {
        None
    } else if spec_code(options[0]) == tag {
        Some(options[0])
    } else {
        spec_option(options.drop_first(), tag)
    }
}

/// The message type that `options` give.
pub open spec fn spec_message_type(options: Seq<OptionView>) -> Result<
    MessageType,
    MessageTypeError,
> {
    match spec_option(options, DHCP_MESSAGE_TYPE) {
        Some(OptionView::DhcpMessageType(t)) => Ok(t),
        Some(_) => Err(MessageTypeError::Unexpected),
        None => Err(MessageTypeError::Missing),
    }
}

/// Whether the flags ask for a broadcast reply.
pub open spec fn spec_broadcast(flags: u16) -> bool {
    flags >= BROADCAST_FLAG
}

/// Appends `data` to `out`.
fn push_all(out: &mut Vec<u8>, data: &[u8])
    ensures
        final(out)@ == old(out)@ + data@,
{
    let mut i: usize = 0;
    while i < data.len()
        invariant
            i <= data.len(),
            out@ == old(out)@ + data@.take(i as int),
        decreases data.len() - i,
    {
        out.push(data[i]);
        i += 1;
    }
    assert(data@.take(data.len() as int) == data@);
}

/// Appends `n` zero bytes to `out`.
fn push_zeros(out: &mut Vec<u8>, n: usize)
    ensures
        final(out)@ == old(out)@ + spec_zeros(n as nat),
{
    let mut i: usize = 0;
    while i < n
        invariant
            i <= n,
            out@ == old(out)@ + spec_zeros(i as nat),
        decreases n - i,
    {
        out.push(0u8);
        assert(out@ =~= old(out)@ + spec_zeros((i + 1) as nat));
        i += 1;
    }
}

/// The 16-bit number whose big-endian bytes are `a` and `b`.
fn be_u16(a: u8, b: u8) -> (v: u16)
    ensures
        v == (a as int * 0x100 + b as int) as u16,
{
    (a as u16) * 0x100 + (b as u16)
}

/// Appends the big-endian bytes of `v` to `out`.
fn push_u16(out: &mut Vec<u8>, v: u16)
    ensures
        final(out)@ == old(out)@ + spec_be_bytes_u16(v),
{
    out.push((v / 0x100) as u8);
    out.push((v % 0x100) as u8);
    assert(out@ =~= old(out)@ + spec_be_bytes_u16(v));
}

/// Appends the big-endian bytes of `v` to `out`.
fn push_u32(out: &mut Vec<u8>, v: u32)
    ensures
        final(out)@ == old(out)@ + spec_be_bytes(v),
{
    let b = be_bytes(v);
    push_all(out, b.as_slice());
}

impl Packet {
    /// Reads a datagram. One shorter than the header and the magic cookie,
    /// or without the magic cookie, is refused; any other is a message.
    pub fn decode(bytes: &[u8]) -> (r: Result<Packet, DecodeError>)
        ensures
            match r {
                Ok(p) => spec_decode(bytes@) == Ok::<PacketView, DecodeError>(p@),
                Err(e) => spec_decode(bytes@) == Err::<PacketView, DecodeError>(e),
            },
    {
        let len = bytes.len();
        if len < OPTIONS_AT {
            return Err(DecodeError::TooShort);
        }
        if bytes[236] != COOKIE[0] || bytes[237] != COOKIE[1] || bytes[238] != COOKIE[2]
            || bytes[239] != COOKIE[3] {
            proof {
                let got = bytes@.subrange(HEADER_LEN as int, OPTIONS_AT as int);
                assert(got[0] == bytes[236] && got[1] == bytes[237] && got[2] == bytes[238]
                    && got[3] == bytes[239]);
            }
            return Err(DecodeError::BadCookie);
        }
        assert(bytes@.subrange(HEADER_LEN as int, OPTIONS_AT as int) =~= COOKIE@);
        let chaddr = [bytes[28], bytes[29], bytes[30], bytes[31], bytes[32], bytes[33]];
        let mut options: Vec<DhcpOption> = Vec::new();
        let mut pos: usize = OPTIONS_AT;
        assert(options.deep_view() =~= Seq::<OptionView>::empty());
        let mut more = true;
        while more
            invariant
                OPTIONS_AT <= pos <= len,
                len == bytes.len(),
                spec_options_from(bytes@, OPTIONS_AT as int) == options.deep_view()
                    + spec_options_from(bytes@, pos as int),
                !more ==> spec_options_from(bytes@, pos as int) == Seq::<OptionView>::empty(),
            decreases len - pos + if more { 1int } else { 0int },
        {
            if len - pos < 2 || bytes[pos] == END {
                more = false;
            } else {
                let size = bytes[pos + 1] as usize;
                if len - pos - 2 < size {
                    more = false;
                } else {
                    let next = pos + 2 + size;
                    let option = DhcpOption::from_wire(
                        bytes[pos],
                        vstd::slice::slice_subrange(bytes, pos + 2, next),
                    );
                    let ghost before = options.deep_view();
                    options.push(option);
                    assert(options.deep_view() =~= before + seq![option@]);
                    pos = next;
                }
            }
        }
        Ok(
            Packet {
                op: bytes[0],
                htype: bytes[1],
                hlen: bytes[2],
                hops: bytes[3],
                xid: ipv4(bytes[4], bytes[5], bytes[6], bytes[7]),
                secs: be_u16(bytes[8], bytes[9]),
                flags: be_u16(bytes[10], bytes[11]),
                ciaddr: ipv4(bytes[12], bytes[13], bytes[14], bytes[15]),
                yiaddr: ipv4(bytes[16], bytes[17], bytes[18], bytes[19]),
                siaddr: ipv4(bytes[20], bytes[21], bytes[22], bytes[23]),
                giaddr: ipv4(bytes[24], bytes[25], bytes[26], bytes[27]),
                chaddr,
                options,
            },
        )
    }

    /// Writes the message out: the header, the magic cookie, each option in
    /// turn, and the end tag.
    pub fn encode(&self) -> (bytes: Vec<u8>)
        ensures
            bytes@ == spec_encode(self@),
    {
        let mut out: Vec<u8> = Vec::new();
        out.push(self.op);
        out.push(self.htype);
        out.push(self.hlen);
        out.push(self.hops);
        assert(out@ =~= seq![self.op, self.htype, self.hlen, self.hops]);
        push_u32(&mut out, self.xid);
        push_u16(&mut out, self.secs);
        push_u16(&mut out, self.flags);
        push_u32(&mut out, self.ciaddr);
        push_u32(&mut out, self.yiaddr);
        push_u32(&mut out, self.siaddr);
        push_u32(&mut out, self.giaddr);
        push_all(&mut out, self.chaddr.as_slice());
        push_zeros(&mut out, 202);
        assert(out@ == spec_header(self@));
        push_all(&mut out, COOKIE.as_slice());
        let ghost head = out@;
        let n = self.options.len();
        let mut i: usize = 0;
        assert(self.options.deep_view().take(0) =~= Seq::<OptionView>::empty());
        while i < n
            invariant
                i <= n,
                n == self.options.len(),
                out@ == head + spec_emit(self.options.deep_view().take(i as int)),
            decreases n - i,
        {
            let option = &self.options[i];
            let payload = option.wire_payload();
            let ghost before = out@;
            out.push(option.code());
            out.push(payload.len() as u8);
            push_all(&mut out, payload.as_slice());
            proof {
                let all = self.options.deep_view();
                let done = all.take(i + 1);
                assert(done.drop_last() =~= all.take(i as int));
                assert(done.last() == option@);
                assert(out@ =~= before + spec_wire(option@));
            }
            i += 1;
        }
        assert(self.options.deep_view().take(n as int) =~= self.options.deep_view());
        out.push(END);
        assert(out@ =~= spec_encode(self@));
        out
    }

    /// The first option that stands under `tag`.
    pub fn option(&self, tag: u8) -> (found: Option<&DhcpOption>)
        ensures
            match found {
                Some(o) => spec_option(self@.options, tag) == Some(o@),
                None => spec_option(self@.options, tag) is None,
            },
    {
        let n = self.options.len();
        let ghost all = self.options.deep_view();
        let mut i: usize = 0;
        assert(all.skip(0) =~= all);
        while i < n
            invariant
                i <= n,
                n == self.options.len(),
                all == self.options.deep_view(),
                spec_option(all, tag) == spec_option(all.skip(i as int), tag),
            decreases n - i,
        {
            let option = &self.options[i];
            proof {
                let rest = all.skip(i as int);
                assert(rest[0] == option@);
                assert(rest.drop_first() =~= all.skip(i + 1));
            }
            if option.code() == tag {
                return Some(option);
            }
            i += 1;
        }
        None
    }

    /// The type of the message: the value of option 53.
    pub fn message_type(&self) -> (r: Result<MessageType, MessageTypeError>)
        ensures
            r == spec_message_type(self@.options),
    {
        match self.option(DHCP_MESSAGE_TYPE) {
            Some(DhcpOption::DhcpMessageType(t)) => Ok(*t),
            Some(_) => Err(MessageTypeError::Unexpected),
            None => Err(MessageTypeError::Missing),
        }
    }

    /// Whether the client asks for a broadcast reply.
    pub fn broadcast(&self) -> (b: bool)
        ensures
            b == spec_broadcast(self.flags),
    {
        self.flags >= BROADCAST_FLAG
    }
}

} // verus!
