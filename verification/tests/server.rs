use rdhcpd::addr::ipv4;
use rdhcpd::options::{DhcpOption, MessageType};
use rdhcpd::packet::{Packet, BOOT_REPLY, BOOT_REQUEST};
use rdhcpd::server::{destination, for_this_server, reply, Destination, CLIENT_PORT, SERVER_PORT};

fn request_with(options: Vec<DhcpOption>) -> Packet {
    Packet {
        op: BOOT_REQUEST,
        htype: 1,
        hlen: 6,
        hops: 4,
        xid: 0x0a0b_0c0d,
        secs: 9,
        flags: 0,
        ciaddr: ipv4(10, 0, 0, 14),
        yiaddr: 0,
        siaddr: 0,
        giaddr: 0,
        chaddr: [0xaa, 0xbb, 0xcc, 0xdd, 0xee, 0x01],
        options,
    }
}

#[test]
fn a_reply_echoes_the_request() {
    let mut request = request_with(vec![DhcpOption::DhcpMessageType(MessageType::Request)]);
    request.htype = 6;
    request.hlen = 5;
    request.flags = 0x8000;
    request.giaddr = ipv4(10, 0, 1, 1);
    let packet = reply(
        MessageType::Ack,
        vec![DhcpOption::SubnetMask(ipv4(255, 255, 255, 0))],
        ipv4(10, 0, 0, 15),
        &request,
    );
    assert_eq!(
        packet,
        Packet {
            op: BOOT_REPLY,
            htype: 6,
            hlen: 5,
            hops: 0,
            xid: 0x0a0b_0c0d,
            secs: 0,
            flags: 0x8000,
            ciaddr: ipv4(10, 0, 0, 14),
            yiaddr: ipv4(10, 0, 0, 15),
            siaddr: 0,
            giaddr: ipv4(10, 0, 1, 1),
            chaddr: [0xaa, 0xbb, 0xcc, 0xdd, 0xee, 0x01],
            options: vec![
                DhcpOption::DhcpMessageType(MessageType::Ack),
                DhcpOption::SubnetMask(ipv4(255, 255, 255, 0)),
            ],
        }
    );
}

#[test]
fn a_refusal_names_no_client_address() {
    let request = request_with(vec![]);
    let packet = reply(MessageType::Nak, vec![], 0, &request);
    assert_eq!(packet.ciaddr, 0);
    assert_eq!(packet.yiaddr, 0);
    assert_eq!(packet.options, vec![DhcpOption::DhcpMessageType(MessageType::Nak)]);
}

#[test]
fn a_reply_is_broadcast_where_the_client_asks_for_it() {
    let mut request = request_with(vec![]);
    request.flags = 0x8000;
    request.giaddr = ipv4(10, 0, 1, 1);
    assert_eq!(destination(&request, ipv4(10, 0, 0, 15)), Destination::Broadcast);
}

#[test]
fn a_reply_is_broadcast_where_the_client_has_no_address() {
    let mut request = request_with(vec![]);
    request.ciaddr = 0;
    request.giaddr = ipv4(10, 0, 1, 1);
    assert_eq!(destination(&request, ipv4(10, 0, 0, 15)), Destination::Broadcast);
}

#[test]
fn a_reply_goes_to_the_relay_that_passed_the_request_on() {
    let mut request = request_with(vec![]);
    request.giaddr = ipv4(10, 0, 1, 1);
    assert_eq!(destination(&request, ipv4(10, 0, 0, 15)), Destination::Relay(ipv4(10, 0, 1, 1)));
}

#[test]
fn a_reply_goes_to_the_address_given_out_otherwise() {
    let request = request_with(vec![]);
    assert_eq!(destination(&request, ipv4(10, 0, 0, 15)), Destination::Unicast(ipv4(10, 0, 0, 15)));
}

#[test]
fn ports_are_those_of_the_protocol() {
    assert_eq!(SERVER_PORT, 67);
    assert_eq!(CLIENT_PORT, 68);
    assert_eq!(Destination::Broadcast.port(), 68);
    assert_eq!(Destination::Unicast(1).port(), 68);
    assert_eq!(Destination::Relay(1).port(), 67);
}

#[test]
fn a_request_is_for_the_server_it_names() {
    let server = ipv4(10, 0, 0, 1);
    let named = request_with(vec![DhcpOption::ServerIdentifier(server)]);
    assert!(for_this_server(&named, server));
    assert!(!for_this_server(&named, ipv4(10, 0, 0, 2)));
    let unnamed = request_with(vec![DhcpOption::DhcpMessageType(MessageType::Request)]);
    assert!(!for_this_server(&unnamed, server));
    let raw = request_with(vec![DhcpOption::Unrecognized(54, vec![10, 0, 0])]);
    assert!(!for_this_server(&raw, server));
    let twice = request_with(vec![
        DhcpOption::ServerIdentifier(ipv4(10, 0, 0, 2)),
        DhcpOption::ServerIdentifier(server),
    ]);
    assert!(!for_this_server(&twice, server));
}
