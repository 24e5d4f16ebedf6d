//! What is written can be read back: a message that is encoded and decoded
//! again is the message it was.

use vstd::prelude::*;
use vstd::utf8::{
    encode_utf8, encode_utf8_decode_utf8, encode_utf8_valid_utf8, is_ascii_chars,
    is_ascii_chars_encode_utf8,
};
use crate::addr::{
    lemma_be_round_trip, spec_addrs_bytes, spec_be_bytes, spec_be_bytes_u16, spec_be_u16_at,
    spec_be_u32_at, spec_bytes_addrs,
};
use crate::options::{
    lemma_addrs_bytes_len, lemma_wire_payload_len, spec_code, spec_typed, spec_wire,
    spec_wire_payload, MessageType, OptionView, END, MAX_ADDRESSES, MAX_PAYLOAD,
};
use crate::dhcpd::{
    spec_answer, spec_grant, spec_lease_options, spec_nak, Decision, DhcpdView, NOT_AVAILABLE,
};
use crate::packet::{
    spec_decode, spec_emit, spec_encode, spec_header, spec_options_from, spec_zeros,
    DecodeError, PacketView, COOKIE, HEADER_LEN, OPTIONS_AT,
};

verus! {

/// Whether an option is read back as it was written: it does not stand
/// under the end tag, and its tag and payload stand for the option itself.
pub open spec fn spec_faithful(o: OptionView) -> bool {
    spec_code(o) != END && spec_typed(spec_code(o), spec_wire_payload(o)) == o
}

/// The addresses read from the bytes of a list of addresses are the list.
pub proof fn lemma_addrs_round_trip(addrs: Seq<u32>)
    ensures
        spec_bytes_addrs(spec_addrs_bytes(addrs)) == addrs,
    decreases addrs.len(),
{
    let bytes = spec_addrs_bytes(addrs);
    lemma_addrs_bytes_len(addrs);
    assert forall|i: int| 0 <= i < addrs.len() implies spec_be_u32_at(bytes, 4 * i)
        == addrs[i] by {
        lemma_addrs_read(addrs, i);
    }
    assert(spec_bytes_addrs(bytes) =~= addrs);
}

/// The four bytes of the address `i` of a list stand at `4 * i` of its
/// bytes.
pub proof fn lemma_addrs_read(addrs: Seq<u32>, i: int)
    requires
        0 <= i < addrs.len(),
    ensures
        spec_be_u32_at(spec_addrs_bytes(addrs), 4 * i) == addrs[i],
    decreases addrs.len(),
{
    let before = spec_addrs_bytes(addrs.drop_last());
    lemma_addrs_bytes_len(addrs.drop_last());
    lemma_be_round_trip(addrs.last());
    let bytes = spec_addrs_bytes(addrs);
    let last = spec_be_bytes(addrs.last());
    if i == addrs.len() - 1 {
        assert(bytes[4 * i] == last[0]);
        assert(bytes[4 * i + 1] == last[1]);
        assert(bytes[4 * i + 2] == last[2]);
        assert(bytes[4 * i + 3] == last[3]);
    } else {
        lemma_addrs_read(addrs.drop_last(), i);
        assert(bytes[4 * i] == before[4 * i]);
        assert(bytes[4 * i + 1] == before[4 * i + 1]);
        assert(bytes[4 * i + 2] == before[4 * i + 2]);
        assert(bytes[4 * i + 3] == before[4 * i + 3]);
    }
}

/// Every typed option is read back as it was written: a list of up to 63
/// addresses, a text of up to 255 bytes, and any option of one address,
/// of a lease time or of a message type.
pub proof fn law_typed_options_are_faithful(o: OptionView)
    requires
        !(o is Unrecognized),
        o matches OptionView::Router(addrs) ==> addrs.len() <= MAX_ADDRESSES,
        o matches OptionView::DomainNameServer(addrs) ==> addrs.len() <= MAX_ADDRESSES,
        o matches OptionView::Message(text) ==> encode_utf8(text).len() <= MAX_PAYLOAD,
    ensures
        spec_faithful(o),
{
    match o {
        OptionView::DhcpMessageType(t) => {
            t.lemma_code_round_trip();
            assert(spec_wire_payload(o)[0] == t.spec_code());
        },
        OptionView::ServerIdentifier(ip) => {
            lemma_be_round_trip(ip);
        },
        OptionView::RequestedIpAddress(ip) => {
            lemma_be_round_trip(ip);
        },
        OptionView::IpAddressLeaseTime(secs) => {
            lemma_be_round_trip(secs);
        },
        OptionView::SubnetMask(mask) => {
            lemma_be_round_trip(mask);
        },
        OptionView::Router(addrs) => {
            lemma_addrs_bytes_len(addrs);
            lemma_addrs_round_trip(addrs);
        },
        OptionView::DomainNameServer(addrs) => {
            lemma_addrs_bytes_len(addrs);
            lemma_addrs_round_trip(addrs);
        },
        OptionView::Message(text) => {
            encode_utf8_valid_utf8(text);
            encode_utf8_decode_utf8(text);
        },
        OptionView::Unrecognized(_, _) => {},
    }
}

/// The options of two runs, one after the other, are written as the first
/// run and then the second.
pub proof fn lemma_emit_concat(a: Seq<OptionView>, b: Seq<OptionView>)
    ensures
        spec_emit(a + b) == spec_emit(a) + spec_emit(b),
    decreases b.len(),
{
    if b.len() == 0 {
        assert(a + b =~= a);
        assert(spec_emit(a) + spec_emit(b) =~= spec_emit(a));
    } else {
        lemma_emit_concat(a, b.drop_last());
        assert((a + b).drop_last() =~= a + b.drop_last());
        assert((a + b).last() == b.last());
        assert(spec_emit(a + b) =~= spec_emit(a) + spec_emit(b));
    }
}

/// Options that are written after `before` and closed by the end tag are
/// read back from there, where each of them is read back as it was written.
pub proof fn lemma_options_round_trip(before: Seq<u8>, options: Seq<OptionView>)
    requires
        forall|i: int| 0 <= i < options.len() ==> spec_faithful(#[trigger] options[i]),
    ensures
        spec_options_from(before + spec_emit(options) + seq![END], before.len() as int)
            == options,
    decreases options.len(),
{
    let bytes = before + spec_emit(options) + seq![END];
    let pos = before.len() as int;
    if options.len() == 0 {
        assert(spec_options_from(bytes, pos) =~= options);
    } else {
        let first = options[0];
        let rest = options.drop_first();
        let payload = spec_wire_payload(first);
        lemma_wire_payload_len(first);
        assert(options =~= seq![first] + rest);
        lemma_emit_concat(seq![first], rest);
        let one = seq![first];
        assert(one.drop_last() =~= Seq::<OptionView>::empty());
        assert(spec_emit(one.drop_last()) =~= Seq::<u8>::empty());
        assert(one.last() == first);
        assert(spec_emit(one) =~= spec_wire(first));
        let ahead = before + spec_wire(first);
        assert(bytes =~= ahead + spec_emit(rest) + seq![END]);
        assert(spec_faithful(first));
        assert(bytes[pos] == spec_code(first));
        assert(bytes[pos + 1] == payload.len() as u8);
        let next = pos + 2 + payload.len();
        assert(next == ahead.len());
        assert(bytes.subrange(pos + 2, next) =~= payload);
        assert forall|i: int| 0 <= i < rest.len() implies spec_faithful(#[trigger] rest[i]) by {
            assert(rest[i] == options[i + 1]);
        }
        lemma_options_round_trip(ahead, rest);
        assert(spec_options_from(bytes, pos) =~= seq![first] + rest);
    }
}

/// The header of a message has the length of a header.
pub proof fn lemma_header_len(p: PacketView)
    ensures
        spec_header(p).len() == HEADER_LEN,
{
    vstd::array::array_len_matches_n(&p.chaddr);
}

/// A message that is encoded and decoded again is the message it was,
/// where each of its options is read back as it was written.
pub proof fn law_decode_encode(p: PacketView)
    requires
        forall|i: int| 0 <= i < p.options.len() ==> spec_faithful(#[trigger] p.options[i]),
    ensures
        spec_decode(spec_encode(p)) == Ok::<PacketView, DecodeError>(p),
{
    let header = spec_header(p);
    let bytes = spec_encode(p);
    lemma_header_len(p);
    vstd::array::array_len_matches_n(&p.chaddr);
    let before = header + COOKIE@;
    assert(before.len() == OPTIONS_AT);
    assert(bytes =~= before + spec_emit(p.options) + seq![END]);
    lemma_options_round_trip(before, p.options);
    assert(bytes.subrange(HEADER_LEN as int, OPTIONS_AT as int) =~= COOKIE@);
    assert forall|i: int| 0 <= i < HEADER_LEN implies bytes[i] == header[i] by {}
    let head = seq![p.op, p.htype, p.hlen, p.hops];
    let fixed = head + spec_be_bytes(p.xid) + spec_be_bytes_u16(p.secs) + spec_be_bytes_u16(
        p.flags,
    ) + spec_be_bytes(p.ciaddr) + spec_be_bytes(p.yiaddr) + spec_be_bytes(p.siaddr)
        + spec_be_bytes(p.giaddr);
    assert(header =~= fixed + p.chaddr@ + spec_zeros(202));
    assert(fixed.len() == 28);
    assert forall|i: int| 0 <= i < 28 implies header[i] == fixed[i] by {}
    assert forall|i: int| 0 <= i < 6 implies header[28 + i] == p.chaddr@[i] by {}
    lemma_be_round_trip(p.xid);
    lemma_be_round_trip(p.ciaddr);
    lemma_be_round_trip(p.yiaddr);
    lemma_be_round_trip(p.siaddr);
    lemma_be_round_trip(p.giaddr);
    assert(fixed.subrange(4, 8) =~= spec_be_bytes(p.xid));
    assert(fixed.subrange(8, 10) =~= spec_be_bytes_u16(p.secs));
    assert(fixed.subrange(10, 12) =~= spec_be_bytes_u16(p.flags));
    assert(fixed.subrange(12, 16) =~= spec_be_bytes(p.ciaddr));
    assert(fixed.subrange(16, 20) =~= spec_be_bytes(p.yiaddr));
    assert(fixed.subrange(20, 24) =~= spec_be_bytes(p.siaddr));
    assert(fixed.subrange(24, 28) =~= spec_be_bytes(p.giaddr));
    lemma_read_u32(bytes, fixed, 4, p.xid);
    lemma_read_u32(bytes, fixed, 12, p.ciaddr);
    lemma_read_u32(bytes, fixed, 16, p.yiaddr);
    lemma_read_u32(bytes, fixed, 20, p.siaddr);
    lemma_read_u32(bytes, fixed, 24, p.giaddr);
    lemma_read_u16(bytes, fixed, 8, p.secs);
    lemma_read_u16(bytes, fixed, 10, p.flags);
    let read = spec_decode(bytes)->Ok_0;
    assert(read.chaddr =~= p.chaddr);
    assert(read.op == p.op && read.htype == p.htype && read.hlen == p.hlen && read.hops == p.hops)
        by {
        assert(fixed[0] == p.op && fixed[1] == p.htype && fixed[2] == p.hlen && fixed[3]
            == p.hops);
    }
}

/// Every offer and acknowledgement of a server with no more than 63 name
/// servers is read back as the server built it.
pub proof fn lemma_grant_is_read_back(s: DhcpdView, t: MessageType, p: PacketView, ip: u32)
    requires
        s.dns_servers.len() <= MAX_ADDRESSES,
    ensures
        spec_decode(spec_encode(spec_grant(s, t, p, ip))) == Ok::<PacketView, DecodeError>(
            spec_grant(s, t, p, ip),
        ),
{
    let reply = spec_grant(s, t, p, ip);
    let given = spec_lease_options(s);
    law_typed_options_are_faithful(OptionView::DhcpMessageType(t));
    law_typed_options_are_faithful(given[0]);
    law_typed_options_are_faithful(given[1]);
    law_typed_options_are_faithful(given[2]);
    law_typed_options_are_faithful(given[3]);
    assert forall|i: int| 0 <= i < reply.options.len() implies spec_faithful(
        #[trigger] reply.options[i],
    ) by {
        if i > 0 {
            assert(reply.options[i] == given[i - 1]);
        }
    }
    law_decode_encode(reply);
}

/// Every refusal of a server is read back as the server built it.
pub proof fn lemma_refusal_is_read_back(p: PacketView)
    ensures
        spec_decode(spec_encode(spec_nak(p, NOT_AVAILABLE@))) == Ok::<PacketView, DecodeError>(
            spec_nak(p, NOT_AVAILABLE@),
        ),
{
    let reply = spec_nak(p, NOT_AVAILABLE@);
    reveal_strlit("Requested IP not available");
    assert(is_ascii_chars(NOT_AVAILABLE@));
    is_ascii_chars_encode_utf8(NOT_AVAILABLE@);
    law_typed_options_are_faithful(OptionView::DhcpMessageType(MessageType::Nak));
    law_typed_options_are_faithful(OptionView::Message(NOT_AVAILABLE@));
    assert forall|i: int| 0 <= i < reply.options.len() implies spec_faithful(
        #[trigger] reply.options[i],
    ) by {}
    law_decode_encode(reply);
}

/// Every reply of a server with no more than 63 name servers is read back
/// as the server built it.
pub proof fn law_replies_are_read_back(s: DhcpdView, decision: Decision, p: PacketView)
    requires
        s.dns_servers.len() <= MAX_ADDRESSES,
    ensures
        spec_answer(s, decision, p) matches Some(reply) ==> spec_decode(spec_encode(reply))
            == Ok::<PacketView, DecodeError>(reply),
{
    match decision {
        Decision::Offer(ip) => {
            lemma_grant_is_read_back(s, MessageType::Offer, p, ip);
        },
        Decision::Ack(ip) => {
            lemma_grant_is_read_back(s, MessageType::Ack, p, ip);
        },
        Decision::Nak => {
            lemma_refusal_is_read_back(p);
        },
        Decision::Silent => {},
    }
}

/// A number whose bytes stand at `at` of the first bytes of `bytes` is read
/// there.
proof fn lemma_read_u32(bytes: Seq<u8>, fixed: Seq<u8>, at: int, v: u32)
    requires
        0 <= at,
        at + 4 <= fixed.len() <= bytes.len(),
        forall|i: int| 0 <= i < fixed.len() ==> bytes[i] == fixed[i],
        fixed.subrange(at, at + 4) == spec_be_bytes(v),
    ensures
        spec_be_u32_at(bytes, at) == v,
{
    lemma_be_round_trip(v);
    let b = fixed.subrange(at, at + 4);
    assert(b[0] == fixed[at] && b[1] == fixed[at + 1] && b[2] == fixed[at + 2] && b[3] == fixed[at
        + 3]);
}

/// A 16-bit number whose bytes stand at `at` of the first bytes of `bytes`
/// is read there.
proof fn lemma_read_u16(bytes: Seq<u8>, fixed: Seq<u8>, at: int, v: u16)
    requires
        0 <= at,
        at + 2 <= fixed.len() <= bytes.len(),
        forall|i: int| 0 <= i < fixed.len() ==> bytes[i] == fixed[i],
        fixed.subrange(at, at + 2) == spec_be_bytes_u16(v),
    ensures
        spec_be_u16_at(bytes, at) == v,
{
    let b = fixed.subrange(at, at + 2);
    assert(b[0] == fixed[at] && b[1] == fixed[at + 1]);
    assert(b[0] == (v / 0x100) as u8);
    assert(b[1] == (v % 0x100) as u8);
}

} // verus!
