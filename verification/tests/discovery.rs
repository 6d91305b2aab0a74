use fieldwatcher::inventory::Inventory;
use fieldwatcher::model::{Asset, DiscoveryMethod, IpAddress, MacAddress, Timestamp};
use fieldwatcher::parser::{extract_hostname, parse};
use fieldwatcher::sniffer::{next_step, Sniffer, WorkerEvent, WorkerStep};
use fieldwatcher::text::ipv4_text;
use fieldwatcher::throttle::ThrottleAggregator;

const BROADCAST: [u8; 6] = [0xff; 6];
const SECOND: i64 = 1_000_000;
const T0: i64 = 1_700_000_000_000_000;

fn at(micros: i64) -> Timestamp {
    Timestamp { micros }
}

fn ethernet(source: [u8; 6], tags: &[u16], ether_type: u16, body: &[u8]) -> Vec<u8> {
    let mut frame = Vec::new();
    frame.extend_from_slice(&BROADCAST);
    frame.extend_from_slice(&source);
    for tag in tags {
        frame.extend_from_slice(&0x8100u16.to_be_bytes());
        frame.extend_from_slice(&tag.to_be_bytes());
    }
    frame.extend_from_slice(&ether_type.to_be_bytes());
    frame.extend_from_slice(body);
    frame
}

fn arp_body(sender_mac: [u8; 6], sender_ip: [u8; 4]) -> Vec<u8> {
    let mut body = vec![0x00, 0x01, 0x08, 0x00, 6, 4, 0x00, 0x02];
    body.extend_from_slice(&sender_mac);
    body.extend_from_slice(&sender_ip);
    body.extend_from_slice(&[0u8; 6]);
    body.extend_from_slice(&[192, 168, 1, 1]);
    body
}

fn arp_frame(source: [u8; 6], sender_ip: [u8; 4], tags: &[u16]) -> Vec<u8> {
    ethernet(source, tags, 0x0806, &arp_body(source, sender_ip))
}

fn ipv4_udp_body(source_ip: [u8; 4], destination_port: u16, payload: &[u8]) -> Vec<u8> {
    let total = (20 + 8 + payload.len()) as u16;
    let mut body = vec![0x45, 0x00];
    body.extend_from_slice(&total.to_be_bytes());
    body.extend_from_slice(&[0x00, 0x00, 0x00, 0x00, 0xff, 17, 0x00, 0x00]);
    body.extend_from_slice(&source_ip);
    body.extend_from_slice(&[224, 0, 0, 251]);
    body.extend_from_slice(&40000u16.to_be_bytes());
    body.extend_from_slice(&destination_port.to_be_bytes());
    body.extend_from_slice(&((8 + payload.len()) as u16).to_be_bytes());
    body.extend_from_slice(&[0x00, 0x00]);
    body.extend_from_slice(payload);
    body
}

fn udp_frame(source: [u8; 6], source_ip: [u8; 4], port: u16, payload: &[u8]) -> Vec<u8> {
    ethernet(source, &[], 0x0800, &ipv4_udp_body(source_ip, port, payload))
}

fn dns_question(labels: &[&str]) -> Vec<u8> {
    let mut payload = vec![0u8; 12];
    payload[5] = 1;
    for label in labels {
        payload.push(label.len() as u8);
        payload.extend_from_slice(label.as_bytes());
    }
    payload.extend_from_slice(&[0x00, 0x00, 0x01, 0x00, 0x01]);
    payload
}

fn icmpv6_frame(source: [u8; 6], source_ip: [u8; 16], icmp_type: u8) -> Vec<u8> {
    let mut icmp = vec![icmp_type, 0, 0, 0, 0, 0, 0, 0];
    icmp.extend_from_slice(&[0u8; 16]);
    let mut body = vec![0x60, 0x00, 0x00, 0x00];
    body.extend_from_slice(&(icmp.len() as u16).to_be_bytes());
    body.extend_from_slice(&[58, 255]);
    body.extend_from_slice(&source_ip);
    let mut destination = [0u8; 16];
    destination[0] = 0xff;
    destination[1] = 0x02;
    destination[15] = 0x01;
    body.extend_from_slice(&destination);
    body.extend_from_slice(&icmp);
    ethernet(source, &[], 0x86dd, &body)
}

fn link_local(last: u8) -> [u8; 16] {
    let mut ip = [0u8; 16];
    ip[0] = 0xfe;
    ip[1] = 0x80;
    ip[15] = last;
    ip
}

const HOST_A: [u8; 6] = [0xaa, 0xbb, 0xcc, 0x11, 0x22, 0x33];
const HOST_B: [u8; 6] = [0xde, 0xad, 0xbe, 0xef, 0x00, 0x01];
const SWITCH: [u8; 6] = [0x00, 0x1b, 0x21, 0xaa, 0xbb, 0xcc];

/// A sensor in miniature: worker, aggregator and inventory in one place.
struct Pipeline {
    sniffer: Sniffer,
    aggregator: ThrottleAggregator,
    inventory: Inventory,
    writes: usize,
}

fn pipeline() -> Pipeline {
    Pipeline {
        sniffer: Sniffer::new("test0".to_string()),
        aggregator: ThrottleAggregator::new(),
        inventory: Inventory::new(),
        writes: 0,
    }
}

fn feed(p: &mut Pipeline, frame: &[u8], micros: i64) -> bool {
    let asset = match p.sniffer.observe_at(frame, at(micros)) {
        Some(asset) => asset,
        None => return false,
    };
    match p.aggregator.process(asset, at(micros)) {
        Some(synced) => {
            p.inventory.sync_asset(synced);
            p.writes += 1;
            true
        }
        None => false,
    }
}

fn stored(p: &Pipeline, mac: [u8; 6]) -> Asset {
    p.inventory.get(&MacAddress { octets: mac }).expect("the host has a row")
}

#[test]
fn arp_reply_creates_asset() {
    let mut p = pipeline();
    assert!(feed(&mut p, &arp_frame(HOST_A, [192, 168, 1, 50], &[]), T0));
    let asset = stored(&p, HOST_A);
    assert_eq!(asset.mac_address.to_text(), "AA:BB:CC:11:22:33");
    assert_eq!(asset.ip_address, IpAddress::V4([192, 168, 1, 50]));
    assert_eq!(ipv4_text(&[192, 168, 1, 50]), "192.168.1.50");
    assert_eq!(asset.discovery_method, DiscoveryMethod::Arp);
    assert_eq!(asset.discovery_method.as_str(), "ARP");
    assert_eq!(asset.vlan_id, 1);
    assert_eq!(asset.hostname, None);
    assert_eq!(asset.first_seen_at, at(T0));
    assert_eq!(asset.last_seen_at, at(T0));
}

#[test]
fn mdns_after_arp_promotes_hostname() {
    let mut p = pipeline();
    assert!(feed(&mut p, &arp_frame(HOST_A, [192, 168, 1, 50], &[]), T0));
    let mdns = udp_frame(HOST_A, [192, 168, 1, 50], 5353, &dns_question(&["printer", "local"]));
    assert!(feed(&mut p, &mdns, T0 + 2 * SECOND));
    let asset = stored(&p, HOST_A);
    assert_eq!(asset.discovery_method, DiscoveryMethod::Mdns);
    assert_eq!(asset.discovery_method.as_str(), "mDNS");
    assert_eq!(asset.hostname.as_deref(), Some("printer"));
    assert_eq!(asset.first_seen_at, at(T0));
    assert_eq!(asset.last_seen_at, at(T0 + 2 * SECOND));
    assert_eq!(p.writes, 2);
}

#[test]
fn repeat_within_heartbeat_is_dropped() {
    let mut p = pipeline();
    let mdns = udp_frame(HOST_A, [192, 168, 1, 50], 5353, &dns_question(&["printer", "local"]));
    assert!(feed(&mut p, &arp_frame(HOST_A, [192, 168, 1, 50], &[]), T0));
    assert!(feed(&mut p, &mdns, T0 + 2 * SECOND));
    // Three seconds later the host is seen again, unchanged.
    assert!(!feed(&mut p, &mdns, T0 + 5 * SECOND));
    let asset = stored(&p, HOST_A);
    assert_eq!(asset.last_seen_at, at(T0 + 2 * SECOND));
    assert_eq!(asset.hostname.as_deref(), Some("printer"));
    assert_eq!(p.writes, 2);
}

#[test]
fn arp_after_mdns_within_heartbeat_is_a_change_of_method() {
    let mut p = pipeline();
    let arp = arp_frame(HOST_A, [192, 168, 1, 50], &[]);
    let mdns = udp_frame(HOST_A, [192, 168, 1, 50], 5353, &dns_question(&["printer", "local"]));
    assert!(feed(&mut p, &arp, T0));
    assert!(feed(&mut p, &mdns, T0 + 2 * SECOND));
    // ARP after mDNS is another method, and a change of method is written
    // at once, heartbeat or not; the host name is kept.
    assert!(feed(&mut p, &arp, T0 + 5 * SECOND));
    let asset = stored(&p, HOST_A);
    assert_eq!(asset.discovery_method, DiscoveryMethod::Arp);
    assert_eq!(asset.hostname.as_deref(), Some("printer"));
    assert_eq!(asset.first_seen_at, at(T0));
    assert_eq!(asset.last_seen_at, at(T0 + 5 * SECOND));
    // The same ARP once more, still within the window, changes nothing.
    assert!(!feed(&mut p, &arp, T0 + 6 * SECOND));
    assert_eq!(stored(&p, HOST_A).last_seen_at, at(T0 + 5 * SECOND));
    assert_eq!(p.writes, 3);
}

#[test]
fn arp_after_heartbeat_keeps_hostname() {
    let mut p = pipeline();
    let arp = arp_frame(HOST_A, [192, 168, 1, 50], &[]);
    let mdns = udp_frame(HOST_A, [192, 168, 1, 50], 5353, &dns_question(&["printer", "local"]));
    assert!(feed(&mut p, &arp, T0));
    assert!(feed(&mut p, &mdns, T0 + 2 * SECOND));
    assert!(feed(&mut p, &arp, T0 + 13 * SECOND));
    let asset = stored(&p, HOST_A);
    assert_eq!(asset.last_seen_at, at(T0 + 13 * SECOND));
    assert_eq!(asset.first_seen_at, at(T0));
    assert_eq!(asset.hostname.as_deref(), Some("printer"));
    assert_eq!(asset.discovery_method, DiscoveryMethod::Arp);
    assert_eq!(p.writes, 3);
}

#[test]
fn tagged_arp_records_vlan() {
    let mut p = pipeline();
    assert!(feed(&mut p, &arp_frame(HOST_B, [10, 0, 40, 7], &[40]), T0));
    let asset = stored(&p, HOST_B);
    assert_eq!(asset.mac_address.to_text(), "DE:AD:BE:EF:00:01");
    assert_eq!(asset.ip_address, IpAddress::V4([10, 0, 40, 7]));
    assert_eq!(asset.vlan_id, 40);
    assert_eq!(asset.discovery_method, DiscoveryMethod::Arp);
}

#[test]
fn lldp_frame_resolves_vendor() {
    let mut p = pipeline();
    let lldp = ethernet(SWITCH, &[], 0x88cc, &[0x02, 0x07, 0x04, 0, 0x1b, 0x21, 0xaa, 0xbb, 0xcc, 0, 0]);
    assert!(feed(&mut p, &lldp, T0));
    let asset = stored(&p, SWITCH);
    assert_eq!(asset.mac_address.to_text(), "00:1B:21:AA:BB:CC");
    assert_eq!(asset.ip_address, IpAddress::V4([0, 0, 0, 0]));
    assert_eq!(asset.ip_address, IpAddress::unspecified());
    assert_eq!(ipv4_text(&[0, 0, 0, 0]), "0.0.0.0");
    assert_eq!(asset.discovery_method, DiscoveryMethod::Lldp);
    assert_eq!(asset.discovery_method.as_str(), "LLDP");
    assert_eq!(asset.vendor.as_deref(), Some("Intel Corp"));
    assert_eq!(asset.vlan_id, 1);
}

#[test]
fn arp_with_public_sender_is_ignored() {
    let mut p = pipeline();
    assert!(parse(&arp_frame(HOST_A, [8, 8, 8, 8], &[])).is_none());
    assert!(!feed(&mut p, &arp_frame(HOST_A, [8, 8, 8, 8], &[]), T0));
    assert!(p.inventory.get(&MacAddress { octets: HOST_A }).is_none());
    assert_eq!(p.writes, 0);
}

#[test]
fn frames_outside_the_rules_yield_no_record() {
    assert!(parse(&[]).is_none());
    assert!(parse(&[0u8; 13]).is_none());
    assert!(parse(&ethernet(HOST_A, &[], 0x1234, &[1, 2, 3, 4])).is_none());
    // IPv4 UDP to a port that is not on the list.
    assert!(parse(&udp_frame(HOST_A, [192, 168, 1, 50], 9999, &[0u8; 20])).is_none());
    // A truncated ARP packet does not decode.
    let whole = arp_frame(HOST_A, [192, 168, 1, 50], &[]);
    assert!(parse(&whole[..30]).is_none());
    // A truncated IPv4 header does not decode.
    let udp = udp_frame(HOST_A, [192, 168, 1, 50], 53, &[0u8; 20]);
    assert!(parse(&udp[..20]).is_none());
    // ICMPv6 echo request is no neighbor discovery.
    assert!(parse(&icmpv6_frame(HOST_A, link_local(1), 128)).is_none());
}

#[test]
fn arp_needs_a_private_four_byte_sender() {
    for ip in [[10, 1, 2, 3], [172, 16, 0, 1], [172, 31, 255, 254], [192, 168, 0, 1], [169, 254, 9, 9]] {
        let record = parse(&arp_frame(HOST_A, ip, &[])).expect("private sender");
        assert_eq!(record.ip, IpAddress::V4(ip));
        assert_eq!(record.method, DiscoveryMethod::Arp);
        assert_eq!(record.mac, MacAddress { octets: HOST_A });
        assert_eq!(record.hostname, None);
        assert_eq!(record.vlan_id, 1);
    }
    for ip in [[172, 15, 0, 1], [172, 32, 0, 1], [192, 167, 1, 1], [169, 253, 1, 1], [11, 0, 0, 1], [1, 1, 1, 1]] {
        assert!(parse(&arp_frame(HOST_A, ip, &[])).is_none());
    }
    // An ARP packet for six-byte protocol addresses announces no IPv4 address.
    let mut body = vec![0x00, 0x01, 0x08, 0x00, 6, 6, 0x00, 0x02];
    body.extend_from_slice(&HOST_A);
    body.extend_from_slice(&[10, 0, 0, 1, 0, 0]);
    body.extend_from_slice(&[0u8; 6]);
    body.extend_from_slice(&[10, 0, 0, 2, 0, 0]);
    assert!(parse(&ethernet(HOST_A, &[], 0x0806, &body)).is_none());
}

#[test]
fn double_tagged_frame_records_outer_vlan() {
    let record = parse(&arp_frame(HOST_B, [10, 0, 40, 7], &[100, 40])).expect("tagged ARP");
    assert_eq!(record.vlan_id, 100);
    assert_eq!(record.ip, IpAddress::V4([10, 0, 40, 7]));
}

#[test]
fn neighbor_discovery_yields_ndp_record() {
    for icmp_type in [134u8, 135, 136] {
        let record = parse(&icmpv6_frame(HOST_A, link_local(7), icmp_type)).expect("NDP");
        assert_eq!(record.method, DiscoveryMethod::Ndp);
        assert_eq!(record.ip, IpAddress::V6(link_local(7)));
        assert_eq!(record.hostname, None);
        assert_eq!(record.vlan_id, 1);
    }
    let mut unique_local = [0u8; 16];
    unique_local[0] = 0xfd;
    unique_local[15] = 9;
    assert!(parse(&icmpv6_frame(HOST_A, unique_local, 135)).is_some());
    let mut global = [0u8; 16];
    global[0] = 0x20;
    global[1] = 0x01;
    assert!(parse(&icmpv6_frame(HOST_A, global, 135)).is_none());
    // Router solicitation (133) is not among the announcing types.
    assert!(parse(&icmpv6_frame(HOST_A, link_local(7), 133)).is_none());
}

#[test]
fn udp_ports_map_to_methods() {
    let cases = [
        (67u16, DiscoveryMethod::Dhcp),
        (68, DiscoveryMethod::Dhcp),
        (53, DiscoveryMethod::Dns),
        (5353, DiscoveryMethod::Mdns),
        (5355, DiscoveryMethod::Llmnr),
        (137, DiscoveryMethod::Nbns),
    ];
    for (port, method) in cases {
        let frame = udp_frame(HOST_A, [192, 168, 7, 7], port, &dns_question(&["camera", "lan"]));
        let record = parse(&frame).expect("application discovery");
        assert_eq!(record.method, method);
        assert_eq!(record.ip, IpAddress::V4([192, 168, 7, 7]));
        let expected = match method {
            DiscoveryMethod::Mdns | DiscoveryMethod::Llmnr => Some("camera"),
            _ => None,
        };
        assert_eq!(record.hostname.as_deref(), expected);
    }
    // A public source is dropped at discovery time.
    assert!(parse(&udp_frame(HOST_A, [8, 8, 4, 4], 53, &dns_question(&["camera"]))).is_none());
}

#[test]
fn cdp_ether_type_yields_cdp_record() {
    let record = parse(&ethernet(SWITCH, &[], 0x2000, &[0u8; 8])).expect("CDP");
    assert_eq!(record.method, DiscoveryMethod::Cdp);
    assert_eq!(record.method.as_str(), "CDP");
    assert_eq!(record.ip, IpAddress::unspecified());
    assert_eq!(record.hostname, None);
}

#[test]
fn hostname_is_first_label_when_plausible() {
    assert_eq!(extract_hostname(&dns_question(&["printer", "local"])).as_deref(), Some("printer"));
    assert_eq!(extract_hostname(&dns_question(&["Lab-PC-07"])).as_deref(), Some("Lab-PC-07"));
    assert_eq!(extract_hostname(&dns_question(&["abc"])).as_deref(), Some("abc"));
    // Too short, or with a character outside letters, digits and hyphen.
    assert_eq!(extract_hostname(&dns_question(&["ab", "local"])), None);
    assert_eq!(extract_hostname(&dns_question(&["_ipp", "local"])), None);
    assert_eq!(extract_hostname(&dns_question(&["caf\u{e9}s"])), None);
    // No question, a header only, a label that runs past the end.
    assert_eq!(extract_hostname(&[0u8; 13]), None);
    assert_eq!(extract_hostname(&[0u8; 12]), None);
    assert_eq!(extract_hostname(&[]), None);
    let mut cut = vec![0u8; 12];
    cut.push(7);
    cut.extend_from_slice(b"print");
    assert_eq!(extract_hostname(&cut), None);
}

#[test]
fn sniffer_methods_agree_with_the_parser() {
    let sniffer = Sniffer::new("eth0".to_string());
    assert_eq!(sniffer.interface(), "eth0");
    assert!(Sniffer::is_private_ip([10, 0, 0, 1]));
    assert!(Sniffer::is_private_ip([169, 254, 1, 1]));
    assert!(!Sniffer::is_private_ip([8, 8, 8, 8]));
    let frame = udp_frame(HOST_A, [192, 168, 1, 50], 5355, &dns_question(&["nas-01"]));
    let record = sniffer.process_packet(&frame).expect("LLMNR");
    assert_eq!(record.method, DiscoveryMethod::Llmnr);
    assert_eq!(record.hostname.as_deref(), Some("nas-01"));
    assert_eq!(sniffer.extract_hostname_from_dns(&dns_question(&["nas-01"])).as_deref(), Some("nas-01"));
    assert_eq!(sniffer.get_vendor(&MacAddress { octets: SWITCH }).as_deref(), Some("Intel Corp"));
    assert_eq!(sniffer.get_vendor(&MacAddress { octets: [0x02, 0, 0, 0, 0, 1] }), None);
}

#[test]
fn observe_stamps_both_times_alike() {
    let sniffer = Sniffer::new("eth0".to_string());
    let asset = sniffer.observe(&arp_frame(HOST_A, [192, 168, 1, 50], &[])).expect("ARP");
    assert_eq!(asset.first_seen_at, asset.last_seen_at);
    // Later than the first of January 2020.
    assert!(asset.first_seen_at.micros > 1_577_836_800_000_000);
    assert_eq!(asset.ip_address, IpAddress::V4([192, 168, 1, 50]));
    assert!(sniffer.observe(&arp_frame(HOST_A, [8, 8, 8, 8], &[])).is_none());
    let at_noon = sniffer.observe_at(&arp_frame(HOST_A, [10, 9, 8, 7], &[]), at(T0)).expect("ARP");
    assert_eq!(at_noon.first_seen_at, at(T0));
    assert_eq!(at_noon.last_seen_at, at(T0));
    assert_eq!(at_noon.vendor, None);
}

#[test]
fn capture_loop_steps() {
    assert_eq!(next_step(WorkerEvent::Timeout), WorkerStep::Continue);
    assert_eq!(next_step(WorkerEvent::NoRecord), WorkerStep::Continue);
    assert_eq!(next_step(WorkerEvent::Sent), WorkerStep::Continue);
    assert_eq!(next_step(WorkerEvent::ChannelFull), WorkerStep::WarnAndContinue);
    assert_eq!(next_step(WorkerEvent::ChannelClosed), WorkerStep::Stop);
    assert_eq!(next_step(WorkerEvent::CaptureFailed), WorkerStep::Stop);
}
