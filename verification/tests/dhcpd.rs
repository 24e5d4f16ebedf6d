use rdhcpd::addr::ipv4;
use rdhcpd::config::Config;
use rdhcpd::dhcpd::{Dhcpd, Outcome, Served, StartupError, NOT_AVAILABLE};
use rdhcpd::lease::{Lease, StaticAssignment, INFINITE_LEASE};
use rdhcpd::options::{DhcpOption, MessageType};
use rdhcpd::packet::{Packet, BOOT_REPLY, BOOT_REQUEST};
use rdhcpd::server::Destination;

const NOW: u128 = 1_700_000_000_000;

/// The lease time of `config`, 24 hours, in milliseconds.
const LEASE_MS: u128 = 86_400_000;

const A: [u8; 6] = [0xaa, 0xbb, 0xcc, 0xdd, 0xee, 0x01];

const B: [u8; 6] = [0xaa, 0xbb, 0xcc, 0xdd, 0xee, 0x02];

const M: [u8; 6] = [0x02, 0x00, 0x00, 0x00, 0x00, 0x4d];

fn config(start: u32, end: u32) -> Config {
    Config {
        intf: "eth0".to_string(),
        listen_addr: ipv4(10, 0, 0, 1),
        start,
        end,
        netmask: ipv4(255, 255, 255, 0),
        broadcast: ipv4(10, 0, 0, 255),
        gateway: ipv4(10, 0, 0, 1),
        dns_servers: vec![ipv4(8, 8, 8, 8), ipv4(1, 1, 1, 1)],
        lease_static: "/etc/rdhcpd.static".to_string(),
        lease_file: "/var/lib/rdhcpd.leases".to_string(),
        lease_time: "24h".to_string(),
    }
}

/// A server on the pool `[10.0.0.10, 10.0.0.20)`.
fn server() -> Dhcpd {
    Dhcpd::new(config(ipv4(10, 0, 0, 10), ipv4(10, 0, 0, 20)), vec![], vec![], NOW).unwrap()
}

fn message(t: MessageType, chaddr: [u8; 6], more: Vec<DhcpOption>) -> Packet {
    let mut options = vec![DhcpOption::DhcpMessageType(t)];
    options.extend(more);
    Packet {
        op: BOOT_REQUEST,
        htype: 1,
        hlen: 6,
        hops: 0,
        xid: 0x5151_0001,
        secs: 0,
        flags: 0x8000,
        ciaddr: 0,
        yiaddr: 0,
        siaddr: 0,
        giaddr: 0,
        chaddr,
        options,
    }
}

fn discover(chaddr: [u8; 6]) -> Packet {
    message(MessageType::Discover, chaddr, vec![])
}

fn request(chaddr: [u8; 6], ip: u32) -> Packet {
    message(MessageType::Request, chaddr, vec![DhcpOption::RequestedIpAddress(ip)])
}

fn release(chaddr: [u8; 6]) -> Packet {
    message(MessageType::Release, chaddr, vec![])
}

fn reply_type(outcome: &Outcome) -> Option<MessageType> {
    outcome.reply.as_ref().map(|packet| packet.message_type().unwrap())
}

fn given_out(outcome: &Outcome) -> Option<u32> {
    outcome.reply.as_ref().map(|packet| packet.yiaddr)
}

fn sorted(mut entries: Vec<(u32, Lease)>) -> Vec<(u32, Lease)> {
    entries.sort_by_key(|entry| entry.0);
    entries
}

fn far(mac: [u8; 6]) -> Lease {
    Lease::new(mac, NOW + 1_000_000_000)
}

#[test]
fn scenario_basic_lease_cycle() {
    let mut dhcpd = server();
    let offer = dhcpd.handle_request(&discover(A), NOW);
    assert_eq!(reply_type(&offer), Some(MessageType::Offer));
    assert!(!offer.persist);
    let ip = given_out(&offer).unwrap();
    assert!(ipv4(10, 0, 0, 10) <= ip && ip < ipv4(10, 0, 0, 20));
    assert_eq!(ip, ipv4(10, 0, 0, 11));
    assert_eq!(dhcpd.save_leases(), vec![]);

    let ack = dhcpd.handle_request(&request(A, ip), NOW + 5);
    assert_eq!(reply_type(&ack), Some(MessageType::Ack));
    assert_eq!(given_out(&ack), Some(ip));
    assert!(ack.persist);
    assert_eq!(dhcpd.save_leases(), vec![(ip, Lease::new(A, NOW + 5 + LEASE_MS))]);
    assert_eq!(dhcpd.current_lease(&A), Some(ip));
}

#[test]
fn scenario_contention() {
    let mut dhcpd = server();
    let wanted = ipv4(10, 0, 0, 15);
    let ack = dhcpd.handle_request(&request(A, wanted), NOW);
    assert_eq!(reply_type(&ack), Some(MessageType::Ack));
    assert_eq!(given_out(&ack), Some(wanted));
    assert!(ack.persist);

    let nak = dhcpd.handle_request(&request(B, wanted), NOW + 60_000);
    assert_eq!(reply_type(&nak), Some(MessageType::Nak));
    assert!(!nak.persist);
    let packet = nak.reply.unwrap();
    assert_eq!(packet.yiaddr, 0);
    assert_eq!(
        packet.options,
        vec![
            DhcpOption::DhcpMessageType(MessageType::Nak),
            DhcpOption::Message("Requested IP not available".to_string()),
        ]
    );
    assert_eq!(NOT_AVAILABLE, "Requested IP not available");
    assert_eq!(dhcpd.lease(wanted), Some(Lease::new(A, NOW + LEASE_MS)));
    assert_eq!(dhcpd.save_leases(), vec![(wanted, Lease::new(A, NOW + LEASE_MS))]);
    assert_eq!(dhcpd.current_lease(&B), None);
    // So it is up to the last instant of the lease.
    let nak = dhcpd.handle_request(&request(B, wanted), NOW + LEASE_MS);
    assert_eq!(reply_type(&nak), Some(MessageType::Nak));
    assert_eq!(dhcpd.lease(wanted), Some(Lease::new(A, NOW + LEASE_MS)));
}

#[test]
fn scenario_release() {
    let mut dhcpd = server();
    let ip = given_out(&dhcpd.handle_request(&discover(A), NOW)).unwrap();
    dhcpd.handle_request(&request(A, ip), NOW);
    assert_eq!(dhcpd.lease(ip), Some(Lease::new(A, NOW + LEASE_MS)));

    let released = dhcpd.handle_request(&release(A), NOW + 1);
    assert_eq!(released, Outcome { reply: None, persist: true });
    assert_eq!(dhcpd.lease(ip), None);
    assert_eq!(dhcpd.save_leases(), vec![]);
    assert_eq!(dhcpd.current_lease(&A), None);
}

#[test]
fn scenario_static_override_survives_pool_pressure() {
    let others: Vec<(u32, Lease)> = (11..20u8)
        .map(|last| (ipv4(10, 0, 0, last), far([0x0c, 0, 0, 0, 0, last])))
        .collect();
    let statics = vec!["02:00:00:00:00:4D,10.0.0.10".to_string()];
    let mut dhcpd = Dhcpd::new(
        config(ipv4(10, 0, 0, 10), ipv4(10, 0, 0, 20)),
        others,
        statics,
        NOW,
    )
    .unwrap();
    assert_eq!(dhcpd.save_leases().len(), 10);
    assert_eq!(dhcpd.lease(ipv4(10, 0, 0, 10)), Some(Lease::new(M, NOW + INFINITE_LEASE)));

    let offer = dhcpd.handle_request(&discover(M), NOW + 1);
    assert_eq!(reply_type(&offer), Some(MessageType::Offer));
    assert_eq!(given_out(&offer), Some(ipv4(10, 0, 0, 10)));

    // Nobody else gets it, nor anything: the pool is used up.
    let nothing = dhcpd.handle_request(&discover(A), NOW + 1);
    assert_eq!(nothing, Outcome { reply: None, persist: false });
    let nak = dhcpd.handle_request(&request(A, ipv4(10, 0, 0, 10)), NOW + 1);
    assert_eq!(reply_type(&nak), Some(MessageType::Nak));
    assert_eq!(dhcpd.current_lease(&M), Some(ipv4(10, 0, 0, 10)));
}

#[test]
fn an_offer_carries_the_standard_options() {
    let mut dhcpd = server();
    let mut asked = discover(A);
    asked.xid = 0x0102_0304;
    asked.htype = 1;
    asked.ciaddr = ipv4(10, 0, 0, 99);
    asked.giaddr = ipv4(10, 0, 7, 1);
    let offer = dhcpd.handle_request(&asked, NOW).reply.unwrap();
    assert_eq!(
        offer,
        Packet {
            op: BOOT_REPLY,
            htype: 1,
            hlen: 6,
            hops: 0,
            xid: 0x0102_0304,
            secs: 0,
            flags: 0x8000,
            ciaddr: ipv4(10, 0, 0, 99),
            yiaddr: ipv4(10, 0, 0, 11),
            siaddr: 0,
            giaddr: ipv4(10, 0, 7, 1),
            chaddr: A,
            options: vec![
                DhcpOption::DhcpMessageType(MessageType::Offer),
                DhcpOption::IpAddressLeaseTime(86_400),
                DhcpOption::SubnetMask(ipv4(255, 255, 255, 0)),
                DhcpOption::Router(vec![ipv4(10, 0, 0, 1)]),
                DhcpOption::DomainNameServer(vec![ipv4(8, 8, 8, 8), ipv4(1, 1, 1, 1)]),
            ],
        }
    );
    assert_eq!(dhcpd.reply(MessageType::Offer, &asked, ipv4(10, 0, 0, 11)), offer);
}

#[test]
fn a_refusal_carries_its_reason_and_nothing_else() {
    let dhcpd = server();
    let nak = dhcpd.nak(&request(A, 5), "no");
    assert_eq!(nak.yiaddr, 0);
    assert_eq!(nak.ciaddr, 0);
    assert_eq!(nak.op, BOOT_REPLY);
    assert_eq!(
        nak.options,
        vec![
            DhcpOption::DhcpMessageType(MessageType::Nak),
            DhcpOption::Message("no".to_string()),
        ]
    );
}

#[test]
fn offers_lie_in_the_pool() {
    let start = ipv4(10, 0, 0, 10);
    let end = ipv4(10, 0, 0, 13);
    let mut dhcpd = Dhcpd::new(config(start, end), vec![], vec![], NOW).unwrap();
    for round in 0..10 {
        let ip = dhcpd.allocate(&A, NOW + round).unwrap();
        assert!(start <= ip && ip < end);
    }
}

#[test]
fn offers_go_round_the_pool() {
    let start = ipv4(10, 0, 0, 10);
    let mut dhcpd = Dhcpd::new(config(start, start + 3), vec![], vec![], NOW).unwrap();
    assert_eq!(dhcpd.last_lease(), 0);
    assert_eq!(dhcpd.allocate(&A, NOW), Some(start + 1));
    assert_eq!(dhcpd.last_lease(), 1);
    assert_eq!(dhcpd.allocate(&A, NOW), Some(start + 2));
    assert_eq!(dhcpd.allocate(&A, NOW), Some(start));
    assert_eq!(dhcpd.last_lease(), 0);
    assert_eq!(dhcpd.allocate(&B, NOW), Some(start + 1));
}

#[test]
fn the_allocator_passes_over_what_is_bound() {
    let start = ipv4(10, 0, 0, 10);
    let persisted = vec![(start + 1, far(B)), (start + 2, Lease::new(B, NOW - 1))];
    let mut dhcpd = Dhcpd::new(config(start, start + 4), persisted, vec![], NOW).unwrap();
    // The round begins after the highest bound address of the pool.
    assert_eq!(dhcpd.last_lease(), 2);
    assert_eq!(dhcpd.allocate(&A, NOW), Some(start + 3));
    assert_eq!(dhcpd.allocate(&A, NOW), Some(start));
    // Bound and not run out: passed over. Run out: given.
    assert_eq!(dhcpd.allocate(&A, NOW), Some(start + 2));
    assert_eq!(dhcpd.last_lease(), 2);
    // To its holder a bound address is available.
    assert_eq!(dhcpd.allocate(&B, NOW), Some(start + 3));
    assert_eq!(dhcpd.allocate(&B, NOW), Some(start));
    assert_eq!(dhcpd.allocate(&B, NOW), Some(start + 1));
}

#[test]
fn a_pool_that_is_used_up_gives_nothing() {
    let start = ipv4(10, 0, 0, 10);
    let persisted = vec![(start, far(B)), (start + 1, far(B))];
    let mut dhcpd = Dhcpd::new(config(start, start + 2), persisted, vec![], NOW).unwrap();
    assert_eq!(dhcpd.last_lease(), 1);
    assert_eq!(dhcpd.allocate(&A, NOW), None);
    assert_eq!(dhcpd.last_lease(), 1);
    assert_eq!(dhcpd.handle_request(&discover(A), NOW), Outcome { reply: None, persist: false });
}

#[test]
fn an_empty_pool_gives_nothing() {
    let at = ipv4(10, 0, 0, 10);
    for (start, end) in [(at, at), (at + 5, at), (0, 0), (u32::MAX, u32::MAX)] {
        let mut dhcpd = Dhcpd::new(config(start, end), vec![], vec![], NOW).unwrap();
        assert_eq!(dhcpd.lease_nums(), 0);
        assert_eq!(dhcpd.allocate(&A, NOW), None);
        assert!(!dhcpd.available(&A, start, NOW));
        let nak = dhcpd.handle_request(&request(A, start), NOW);
        assert_eq!(reply_type(&nak), Some(MessageType::Nak));
    }
}

#[test]
fn the_pool_may_reach_the_last_address() {
    let mut dhcpd = Dhcpd::new(config(u32::MAX - 2, u32::MAX), vec![], vec![], NOW).unwrap();
    assert_eq!(dhcpd.lease_nums(), 2);
    assert_eq!(dhcpd.allocate(&A, NOW), Some(u32::MAX - 1));
    assert_eq!(dhcpd.allocate(&A, NOW), Some(u32::MAX - 2));
    let whole = Dhcpd::new(config(0, u32::MAX), vec![], vec![], NOW).unwrap();
    assert_eq!(whole.lease_nums(), u32::MAX);
}

#[test]
fn an_unbound_address_of_the_pool_is_available() {
    let dhcpd = server();
    assert!(dhcpd.available(&A, ipv4(10, 0, 0, 10), NOW));
    assert!(dhcpd.available(&A, ipv4(10, 0, 0, 19), NOW));
}

#[test]
fn an_address_outside_the_pool_is_not_available() {
    let dhcpd = server();
    assert!(!dhcpd.available(&A, ipv4(10, 0, 0, 9), NOW));
    assert!(!dhcpd.available(&A, ipv4(10, 0, 0, 20), NOW));
    assert!(!dhcpd.available(&A, 0, NOW));
    assert!(!dhcpd.available(&A, u32::MAX, NOW));
}

#[test]
fn a_bound_address_is_available_to_its_holder_only() {
    let ip = ipv4(10, 0, 0, 12);
    let dhcpd = Dhcpd::new(
        config(ipv4(10, 0, 0, 10), ipv4(10, 0, 0, 20)),
        vec![(ip, Lease::new(A, NOW + 10))],
        vec![],
        NOW,
    )
    .unwrap();
    assert!(dhcpd.available(&A, ip, NOW));
    assert!(!dhcpd.available(&B, ip, NOW));
    assert!(!dhcpd.available(&B, ip, NOW + 10));
}

#[test]
fn an_address_whose_lease_ran_out_is_available_to_all() {
    let ip = ipv4(10, 0, 0, 12);
    let dhcpd = Dhcpd::new(
        config(ipv4(10, 0, 0, 10), ipv4(10, 0, 0, 20)),
        vec![(ip, Lease::new(A, NOW + 10))],
        vec![],
        NOW,
    )
    .unwrap();
    assert!(dhcpd.available(&B, ip, NOW + 11));
    assert!(dhcpd.available(&A, ip, NOW + 11));
    assert!(dhcpd.available(&B, ip, u128::MAX));
}

#[test]
fn a_lease_lasts_the_lease_time() {
    let mut dhcpd = server();
    let wanted = ipv4(10, 0, 0, 15);
    dhcpd.handle_request(&request(A, wanted), NOW);
    assert_eq!(dhcpd.lease_duration(), 86_400);
    assert_eq!(dhcpd.lease(wanted).unwrap().expiry, NOW + 86_400_000);
    assert!(!dhcpd.available(&B, wanted, NOW));
    assert!(!dhcpd.available(&B, wanted, NOW + 1));
    assert!(!dhcpd.available(&B, wanted, NOW + 86_400_000));
    assert!(dhcpd.available(&B, wanted, NOW + 86_400_001));
    assert!(dhcpd.available(&A, wanted, NOW + 1));
}

#[test]
fn the_expiry_is_the_lease_time_in_milliseconds_after_the_request() {
    let lasts = |secs: u64, now: u128| {
        let mut dhcpd = Dhcpd::with_leases(config(10, 20), vec![], vec![], secs, 0);
        dhcpd.handle_request(&request(A, 15), now);
        dhcpd.lease(15).unwrap().expiry
    };
    assert_eq!(lasts(60, 1_000_000), 1_060_000);
    assert_eq!(lasts(0, 1_000_000), 1_000_000);
    assert_eq!(lasts(1, 0), 1000);
    // The whole lease time counts, not what replies can announce of it.
    assert_eq!(lasts(1 << 32, 5), 5 + 4_294_967_296_000);
    assert_eq!(lasts(u64::MAX, 7), 7 + 1000 * (u64::MAX as u128));
}

#[test]
fn the_server_keeps_its_configuration() {
    let conf = config(ipv4(10, 0, 0, 10), ipv4(10, 0, 0, 20));
    let mut dhcpd = Dhcpd::new(conf.clone(), vec![], vec![], NOW).unwrap();
    assert_eq!(dhcpd.conf(), &conf);
    dhcpd.handle_request(&discover(A), NOW);
    dhcpd.handle_request(&request(A, ipv4(10, 0, 0, 15)), NOW);
    dhcpd.handle_request(&release(A), NOW);
    assert_eq!(dhcpd.conf(), &conf);
    assert_eq!(dhcpd.conf().intf, "eth0");
    assert_eq!(dhcpd.conf().broadcast, ipv4(10, 0, 0, 255));
    assert_eq!(dhcpd.conf().lease_static, "/etc/rdhcpd.static");
    assert_eq!(dhcpd.conf().lease_file, "/var/lib/rdhcpd.leases");
    assert_eq!(dhcpd.conf().lease_time, "24h");
}

#[test]
fn the_current_lease_is_the_lowest_address_held() {
    let persisted = vec![
        (ipv4(10, 0, 0, 17), far(A)),
        (ipv4(10, 0, 0, 12), far(A)),
        (ipv4(10, 0, 0, 11), far(B)),
        (ipv4(10, 0, 0, 14), far(A)),
    ];
    let dhcpd =
        Dhcpd::new(config(ipv4(10, 0, 0, 10), ipv4(10, 0, 0, 20)), persisted, vec![], NOW).unwrap();
    assert_eq!(dhcpd.current_lease(&A), Some(ipv4(10, 0, 0, 12)));
    assert_eq!(dhcpd.current_lease(&B), Some(ipv4(10, 0, 0, 11)));
    assert_eq!(dhcpd.current_lease(&M), None);
}

#[test]
fn a_discover_from_a_holder_offers_what_it_holds() {
    let held = ipv4(10, 0, 0, 17);
    let mut dhcpd = Dhcpd::new(
        config(ipv4(10, 0, 0, 10), ipv4(10, 0, 0, 20)),
        vec![(held, Lease::new(A, 0))],
        vec![],
        NOW,
    )
    .unwrap();
    let cursor = dhcpd.last_lease();
    let first = dhcpd.handle_request(&discover(A), NOW);
    let second = dhcpd.handle_request(&discover(A), NOW + 1000);
    assert_eq!(given_out(&first), Some(held));
    assert_eq!(first, second);
    assert_eq!(dhcpd.last_lease(), cursor);
}

#[test]
fn two_discovers_get_the_same_offer_where_there_is_no_choice() {
    let start = ipv4(10, 0, 0, 10);
    let persisted = vec![(start, far(B)), (start + 2, far(B))];
    let mut dhcpd = Dhcpd::new(config(start, start + 3), persisted, vec![], NOW).unwrap();
    let first = dhcpd.handle_request(&discover(A), NOW);
    let second = dhcpd.handle_request(&discover(A), NOW);
    assert_eq!(given_out(&first), Some(start + 1));
    assert_eq!(first, second);
}

#[test]
fn a_second_discover_moves_on_where_there_is_a_choice() {
    let mut dhcpd = server();
    let first = dhcpd.handle_request(&discover(A), NOW);
    let second = dhcpd.handle_request(&discover(A), NOW);
    assert_eq!(given_out(&first), Some(ipv4(10, 0, 0, 11)));
    assert_eq!(given_out(&second), Some(ipv4(10, 0, 0, 12)));
}

#[test]
fn a_request_without_option_50_asks_for_the_clients_own_address() {
    let mut dhcpd = server();
    let mut asked = message(MessageType::Request, A, vec![]);
    asked.ciaddr = ipv4(10, 0, 0, 13);
    assert_eq!(Dhcpd::requested(&asked), ipv4(10, 0, 0, 13));
    let ack = dhcpd.handle_request(&asked, NOW);
    assert_eq!(reply_type(&ack), Some(MessageType::Ack));
    assert_eq!(given_out(&ack), Some(ipv4(10, 0, 0, 13)));
    assert_eq!(Dhcpd::requested(&request(A, ipv4(10, 0, 0, 14))), ipv4(10, 0, 0, 14));
}

#[test]
fn a_request_from_a_holder_is_acknowledged_with_what_it_holds() {
    let mut dhcpd = server();
    dhcpd.handle_request(&request(A, ipv4(10, 0, 0, 15)), NOW);
    let ack = dhcpd.handle_request(&request(A, ipv4(10, 0, 0, 16)), NOW + 1);
    assert_eq!(reply_type(&ack), Some(MessageType::Ack));
    assert_eq!(given_out(&ack), Some(ipv4(10, 0, 0, 15)));
    assert!(!ack.persist);
    assert_eq!(dhcpd.save_leases(), vec![(ipv4(10, 0, 0, 15), Lease::new(A, NOW + LEASE_MS))]);
}

#[test]
fn a_request_for_an_address_outside_the_pool_is_refused() {
    let mut dhcpd = server();
    for ip in [ipv4(10, 0, 0, 9), ipv4(10, 0, 0, 20), ipv4(192, 168, 0, 1), 0] {
        let nak = dhcpd.handle_request(&request(A, ip), NOW);
        assert_eq!(reply_type(&nak), Some(MessageType::Nak));
        assert!(!nak.persist);
    }
    assert_eq!(dhcpd.save_leases(), vec![]);
}

#[test]
fn a_request_takes_over_an_address_whose_lease_ran_out() {
    let mut dhcpd = server();
    let wanted = ipv4(10, 0, 0, 15);
    dhcpd.handle_request(&request(A, wanted), NOW);
    let after = NOW + LEASE_MS + 1;
    let ack = dhcpd.handle_request(&request(B, wanted), after);
    assert_eq!(reply_type(&ack), Some(MessageType::Ack));
    assert!(ack.persist);
    assert_eq!(dhcpd.lease(wanted), Some(Lease::new(B, after + LEASE_MS)));
    assert_eq!(dhcpd.current_lease(&A), None);
}

#[test]
fn a_decline_unbinds_as_a_release_does() {
    let mut dhcpd = server();
    dhcpd.handle_request(&request(A, ipv4(10, 0, 0, 15)), NOW);
    let declined = dhcpd.handle_request(&message(MessageType::Decline, A, vec![]), NOW);
    assert_eq!(declined, Outcome { reply: None, persist: true });
    assert_eq!(dhcpd.save_leases(), vec![]);
}

#[test]
fn a_release_from_a_stranger_changes_nothing() {
    let mut dhcpd = server();
    dhcpd.handle_request(&request(A, ipv4(10, 0, 0, 15)), NOW);
    let released = dhcpd.handle_request(&release(B), NOW);
    assert_eq!(released, Outcome { reply: None, persist: false });
    assert_eq!(dhcpd.save_leases().len(), 1);
}

#[test]
fn other_messages_are_passed_over() {
    let mut dhcpd = server();
    let silent = Outcome { reply: None, persist: false };
    for t in [MessageType::Inform, MessageType::Offer, MessageType::Ack, MessageType::Nak] {
        assert_eq!(dhcpd.handle_request(&message(t, A, vec![]), NOW), silent);
    }
    let mut untyped = discover(A);
    untyped.options.clear();
    assert_eq!(dhcpd.handle_request(&untyped, NOW), silent);
    let mut garbled = discover(A);
    garbled.options = vec![DhcpOption::Unrecognized(53, vec![1, 1])];
    assert_eq!(dhcpd.handle_request(&garbled, NOW), silent);
    assert_eq!(dhcpd.save_leases(), vec![]);
    assert_eq!(dhcpd.last_lease(), 0);
}

#[test]
fn the_server_identifier_is_not_enforced_unless_asked() {
    let mut dhcpd = server();
    let elsewhere = DhcpOption::ServerIdentifier(ipv4(10, 0, 0, 2));
    let wanted = ipv4(10, 0, 0, 15);
    let asked = message(
        MessageType::Request,
        A,
        vec![DhcpOption::RequestedIpAddress(wanted), elsewhere.clone()],
    );
    assert_eq!(reply_type(&dhcpd.handle_request(&asked, NOW)), Some(MessageType::Ack));
    let let_go = message(MessageType::Release, A, vec![elsewhere]);
    assert_eq!(dhcpd.handle_request(&let_go, NOW), Outcome { reply: None, persist: true });
}

#[test]
fn an_enforced_server_identifier_passes_over_what_names_another() {
    let mut dhcpd = server();
    dhcpd.set_strict_server_id(true);
    let silent = Outcome { reply: None, persist: false };
    let here = DhcpOption::ServerIdentifier(ipv4(10, 0, 0, 1));
    let elsewhere = DhcpOption::ServerIdentifier(ipv4(10, 0, 0, 2));
    let wanted = DhcpOption::RequestedIpAddress(ipv4(10, 0, 0, 15));

    let asked = message(MessageType::Request, A, vec![wanted.clone(), elsewhere.clone()]);
    assert_eq!(dhcpd.handle_request(&asked, NOW), silent);
    let unnamed = message(MessageType::Request, A, vec![wanted.clone()]);
    assert_eq!(dhcpd.handle_request(&unnamed, NOW), silent);
    let named = message(MessageType::Request, A, vec![wanted, here.clone()]);
    assert_eq!(reply_type(&dhcpd.handle_request(&named, NOW)), Some(MessageType::Ack));

    assert_eq!(dhcpd.handle_request(&message(MessageType::Release, A, vec![elsewhere]), NOW), silent);
    assert_eq!(dhcpd.save_leases().len(), 1);
    let let_go = message(MessageType::Decline, A, vec![here]);
    assert_eq!(dhcpd.handle_request(&let_go, NOW), Outcome { reply: None, persist: true });
    // A discover is answered whatever it names.
    assert_eq!(reply_type(&dhcpd.handle_request(&discover(B), NOW)), Some(MessageType::Offer));
}

#[test]
fn a_saved_table_loads_back_as_it_was() {
    let conf = config(ipv4(10, 0, 0, 10), ipv4(10, 0, 0, 20));
    let mut dhcpd = Dhcpd::new(conf.clone(), vec![], vec![], NOW).unwrap();
    dhcpd.handle_request(&request(A, ipv4(10, 0, 0, 15)), NOW);
    dhcpd.handle_request(&request(B, ipv4(10, 0, 0, 12)), NOW + 7);
    dhcpd.handle_request(&request(M, ipv4(10, 0, 0, 19)), NOW + 9);
    dhcpd.handle_request(&release(B), NOW + 11);
    let saved = dhcpd.save_leases();
    assert_eq!(
        sorted(saved.clone()),
        vec![
            (ipv4(10, 0, 0, 15), Lease::new(A, NOW + LEASE_MS)),
            (ipv4(10, 0, 0, 19), Lease::new(M, NOW + 9 + LEASE_MS)),
        ]
    );
    let again = Dhcpd::new(conf, saved.clone(), vec![], NOW + 1_000_000).unwrap();
    assert_eq!(sorted(again.save_leases()), sorted(saved));
    assert_eq!(again.last_lease(), 9);
}

#[test]
fn static_assignments_are_written_over_what_was_saved() {
    let ip = ipv4(10, 0, 0, 10);
    let dhcpd = Dhcpd::with_leases(
        config(ipv4(10, 0, 0, 10), ipv4(10, 0, 0, 20)),
        vec![(ip, far(A)), (ip + 1, far(A)), (ip, far(B))],
        vec![
            StaticAssignment { mac: M, ip: ip + 1 },
            StaticAssignment { mac: M, ip: ipv4(192, 168, 0, 7) },
            StaticAssignment { mac: A, ip: ipv4(192, 168, 0, 7) },
        ],
        60,
        NOW,
    );
    assert_eq!(
        sorted(dhcpd.save_leases()),
        vec![
            (ip, far(B)),
            (ip + 1, Lease::new(M, NOW + INFINITE_LEASE)),
            (ipv4(192, 168, 0, 7), Lease::new(A, NOW + INFINITE_LEASE)),
        ]
    );
    assert_eq!(dhcpd.current_lease(&M), Some(ip + 1));
    assert_eq!(dhcpd.last_lease(), 1);
    assert_eq!(dhcpd.lease_secs(), 60);
}

#[test]
fn the_round_begins_at_the_highest_bound_address_of_the_pool() {
    let start = ipv4(10, 0, 0, 10);
    let end = ipv4(10, 0, 0, 20);
    let at = |persisted: Vec<u32>| {
        let entries = persisted.into_iter().map(|ip| (ip, far(B))).collect();
        Dhcpd::new(config(start, end), entries, vec![], NOW).unwrap().last_lease()
    };
    assert_eq!(at(vec![]), 0);
    assert_eq!(at(vec![start]), 0);
    assert_eq!(at(vec![start + 4]), 4);
    assert_eq!(at(vec![start + 4, start + 9, start + 2]), 9);
    assert_eq!(at(vec![start - 1, end, end + 5]), 0);
    assert_eq!(at(vec![end, start + 3, u32::MAX]), 3);
}

#[test]
fn the_lease_time_is_read_as_a_duration() {
    let secs = |text: &str| {
        let mut conf = config(1, 2);
        conf.lease_time = text.to_string();
        Dhcpd::new(conf, vec![], vec![], NOW).map(|dhcpd| dhcpd.lease_secs())
    };
    assert_eq!(secs("24h"), Ok(86_400));
    assert_eq!(secs("1d"), Ok(86_400));
    assert_eq!(secs("90"), Ok(90));
    assert_eq!(secs("2m + 30s"), Ok(150));
    assert_eq!(secs("1500ms"), Ok(1));
    assert_eq!(secs("0"), Ok(0));
    assert_eq!(secs(""), Err(StartupError::LeaseTime));
    assert_eq!(secs("soon"), Err(StartupError::LeaseTime));
    assert_eq!(secs("24 parsecs"), Err(StartupError::LeaseTime));
}

#[test]
fn the_lease_time_of_replies_is_what_32_bits_hold() {
    let secs = |secs: u64| Dhcpd::with_leases(config(1, 2), vec![], vec![], secs, NOW).lease_secs();
    assert_eq!(secs(0), 0);
    assert_eq!(secs(u32::MAX as u64), u32::MAX);
    assert_eq!(secs(1 << 32), 0);
    assert_eq!(secs((1 << 32) + 5), 5);
    assert_eq!(secs(u64::MAX), u32::MAX);
}

#[test]
fn a_malformed_static_line_stops_the_startup() {
    let lines = vec![
        "AA:BB:CC:DD:EE:01,10.0.0.10".to_string(),
        "AA:BB:CC:DD:EE:02,10.0.0".to_string(),
    ];
    let r = Dhcpd::new(config(1, 2), vec![], lines.clone(), NOW);
    assert_eq!(r.err(), Some(StartupError::StaticLine(1)));
    // The static file is read before the lease time.
    let mut conf = config(1, 2);
    conf.lease_time = "never".to_string();
    assert_eq!(Dhcpd::new(conf, vec![], lines, NOW).err(), Some(StartupError::StaticLine(1)));
}

#[test]
fn the_getters_give_the_configuration() {
    let dhcpd = server();
    assert_eq!(dhcpd.start_num(), ipv4(10, 0, 0, 10));
    assert_eq!(dhcpd.end_num(), ipv4(10, 0, 0, 20));
    assert_eq!(dhcpd.lease_nums(), 10);
    assert_eq!(dhcpd.subnet_mask(), ipv4(255, 255, 255, 0));
    assert_eq!(dhcpd.gateway_ip(), ipv4(10, 0, 0, 1));
    assert_eq!(dhcpd.dns_servers(), vec![ipv4(8, 8, 8, 8), ipv4(1, 1, 1, 1)]);
    assert_eq!(dhcpd.lease_secs(), 86_400);
    assert_eq!(dhcpd.listen_addr(), ipv4(10, 0, 0, 1));
}

#[test]
fn a_static_address_stays_with_its_holder() {
    let statics = vec!["02:00:00:00:00:4D,10.0.0.12".to_string()];
    let mut dhcpd =
        Dhcpd::new(config(ipv4(10, 0, 0, 10), ipv4(10, 0, 0, 14)), vec![], statics, NOW).unwrap();
    let later = NOW + INFINITE_LEASE;
    for round in 0..8u8 {
        let client = [0x0c, 0, 0, 0, 0, round];
        let offer = dhcpd.handle_request(&discover(client), later);
        if let Some(ip) = given_out(&offer) {
            assert_ne!(ip, ipv4(10, 0, 0, 12));
            dhcpd.handle_request(&request(client, ip), later);
        }
        let nak = dhcpd.handle_request(&request([0x0d, 0, 0, 0, 0, round], ipv4(10, 0, 0, 12)), later);
        assert_eq!(reply_type(&nak), Some(MessageType::Nak));
        assert_eq!(dhcpd.current_lease(&M), Some(ipv4(10, 0, 0, 12)));
    }
    // Once the ten years are over the address is like any other.
    assert!(dhcpd.available(&A, ipv4(10, 0, 0, 12), later + 1));
}

#[test]
fn replies_are_read_back_as_they_were_built() {
    let mut dhcpd = server();
    let offer = dhcpd.handle_request(&discover(A), NOW).reply.unwrap();
    assert_eq!(Packet::decode(&offer.encode()), Ok(offer));
    let ack = dhcpd.handle_request(&request(A, ipv4(10, 0, 0, 15)), NOW).reply.unwrap();
    assert_eq!(Packet::decode(&ack.encode()), Ok(ack));
    let nak = dhcpd.handle_request(&request(B, ipv4(10, 0, 0, 15)), NOW).reply.unwrap();
    assert_eq!(Packet::decode(&nak.encode()), Ok(nak));
}

#[test]
fn the_table_is_to_be_saved_exactly_when_it_changed() {
    let mut dhcpd = server();
    let messages = [
        discover(A),
        request(A, ipv4(10, 0, 0, 15)),
        request(A, ipv4(10, 0, 0, 16)),
        request(B, ipv4(10, 0, 0, 15)),
        request(B, ipv4(10, 0, 0, 99)),
        discover(B),
        release(B),
        release(A),
        release(A),
        message(MessageType::Inform, A, vec![]),
    ];
    for (round, asked) in messages.iter().enumerate() {
        let before = sorted(dhcpd.save_leases());
        let outcome = dhcpd.handle_request(asked, NOW);
        let after = sorted(dhcpd.save_leases());
        assert_eq!(outcome.persist, before != after, "message {}", round);
    }
}

#[test]
fn a_datagram_that_is_no_message_is_dropped() {
    let mut dhcpd = server();
    let dropped = Served { send: None, persist: false };
    assert_eq!(dhcpd.handle_datagram(&[], NOW), dropped);
    assert_eq!(dhcpd.handle_datagram(&[1, 1, 6, 0], NOW), dropped);
    assert_eq!(dhcpd.handle_datagram(&vec![0u8; 300], NOW), dropped);
    let mut no_cookie = discover(A).encode();
    no_cookie[237] = 0;
    assert_eq!(dhcpd.handle_datagram(&no_cookie, NOW), dropped);
    assert_eq!(dhcpd.last_lease(), 0);
    assert_eq!(dhcpd.save_leases(), vec![]);
}

#[test]
fn a_datagram_is_answered_as_the_message_it_holds() {
    let mut dhcpd = server();
    let mut twin = server();
    let asked = request(A, ipv4(10, 0, 0, 15));
    let served = dhcpd.handle_datagram(&asked.encode(), NOW);
    let outcome = twin.handle_request(&asked, NOW);
    assert!(served.persist);
    let (bytes, to) = served.send.unwrap();
    assert_eq!(bytes, outcome.reply.unwrap().encode());
    assert_eq!(to, Destination::Broadcast);
    assert_eq!(dhcpd.save_leases(), twin.save_leases());

    // A client that has an address and asks for no broadcast is answered
    // at the address it is given.
    let mut renewing = request(B, ipv4(10, 0, 0, 16));
    renewing.flags = 0;
    renewing.ciaddr = ipv4(10, 0, 0, 16);
    let served = dhcpd.handle_datagram(&renewing.encode(), NOW);
    assert_eq!(served.send.unwrap().1, Destination::Unicast(ipv4(10, 0, 0, 16)));
    // The same through a relay agent goes back to the relay agent.
    renewing.giaddr = ipv4(10, 0, 9, 1);
    let served = dhcpd.handle_datagram(&renewing.encode(), NOW);
    assert_eq!(served.send.unwrap().1, Destination::Relay(ipv4(10, 0, 9, 1)));
    // Nothing is sent on a release.
    let served = dhcpd.handle_datagram(&release(B).encode(), NOW);
    assert_eq!(served, Served { send: None, persist: true });
}

#[test]
fn insert_writes_over_and_remove_unbinds() {
    let mut dhcpd = server();
    let ip = ipv4(10, 0, 0, 15);
    dhcpd.insert(ip, A, NOW);
    assert_eq!(dhcpd.lease(ip), Some(Lease::new(A, NOW + LEASE_MS)));
    dhcpd.insert(ip, B, NOW + 3);
    assert_eq!(dhcpd.save_leases(), vec![(ip, Lease::new(B, NOW + 3 + LEASE_MS))]);
    // An address outside the pool can be bound as well.
    dhcpd.insert(7, A, 0);
    assert_eq!(dhcpd.current_lease(&A), Some(7));
    dhcpd.remove(ip);
    assert_eq!(dhcpd.save_leases(), vec![(7, Lease::new(A, LEASE_MS))]);
    dhcpd.remove(ip);
    dhcpd.remove(7);
    assert_eq!(dhcpd.save_leases(), vec![]);
}
