use fieldwatcher::model::{DiscoveryMethod, IpAddress, MacAddress};
use fieldwatcher::text::{ipv4_text, parse_ipv4, parse_mac, str_equal};

const METHODS: [(DiscoveryMethod, &str); 9] = [
    (DiscoveryMethod::Arp, "ARP"),
    (DiscoveryMethod::Ndp, "NDP"),
    (DiscoveryMethod::Dhcp, "DHCP"),
    (DiscoveryMethod::Dns, "DNS"),
    (DiscoveryMethod::Mdns, "mDNS"),
    (DiscoveryMethod::Llmnr, "LLMNR"),
    (DiscoveryMethod::Nbns, "NBNS"),
    (DiscoveryMethod::Lldp, "LLDP"),
    (DiscoveryMethod::Cdp, "CDP"),
];

#[test]
fn mac_text_is_upper_case_hex_with_colons() {
    assert_eq!(MacAddress { octets: [0xaa, 0xbb, 0xcc, 0x11, 0x22, 0x33] }.to_text(), "AA:BB:CC:11:22:33");
    assert_eq!(MacAddress { octets: [0, 1, 0x0a, 0xf0, 0x9f, 0xff] }.to_text(), "00:01:0A:F0:9F:FF");
    assert_eq!(MacAddress { octets: [0x00, 0x1b, 0x21, 0xaa, 0xbb, 0xcc] }.oui_text(), "001B21");
    assert_eq!(MacAddress { octets: [0xde, 0xad, 0xbe, 0xef, 0x00, 0x01] }.oui_text(), "DEADBE");
}

#[test]
fn mac_text_reads_back() {
    for octets in [[0u8; 6], [0xff; 6], [0xaa, 0xbb, 0xcc, 0x11, 0x22, 0x33], [0x09, 0x0a, 0x90, 0xa9, 0x5e, 0xe5]] {
        let mac = MacAddress { octets };
        assert_eq!(parse_mac(&mac.to_text()), Some(mac));
    }
    assert_eq!(parse_mac("AA:BB:CC:11:22:33"), Some(MacAddress { octets: [0xaa, 0xbb, 0xcc, 0x11, 0x22, 0x33] }));
    for text in ["", "AA:BB:CC:11:22", "aa:bb:cc:11:22:33", "AA-BB-CC-11-22-33", "AA:BB:CC:11:22:3G", "AA:BB:CC:11:22:33 ", "AABB.CC11.2233", "\u{c4}A:BB:CC:11:22:3"] {
        assert_eq!(parse_mac(text), None);
    }
}

#[test]
fn ipv4_text_is_dotted_decimal() {
    assert_eq!(ipv4_text(&[192, 168, 1, 50]), "192.168.1.50");
    assert_eq!(ipv4_text(&[0, 0, 0, 0]), "0.0.0.0");
    assert_eq!(ipv4_text(&[255, 255, 255, 255]), "255.255.255.255");
    assert_eq!(ipv4_text(&[10, 0, 40, 7]), "10.0.40.7");
    assert_eq!(ipv4_text(&[9, 10, 99, 100]), "9.10.99.100");
    assert_eq!(ipv4_text(&[101, 110, 200, 209]), "101.110.200.209");
}

#[test]
fn ipv4_text_reads_back() {
    for a in [[0u8, 0, 0, 0], [255, 255, 255, 255], [192, 168, 1, 50], [9, 10, 99, 100], [1, 22, 133, 4]] {
        assert_eq!(parse_ipv4(&ipv4_text(&a)), Some(a));
    }
    for last in 0..=255u8 {
        assert_eq!(parse_ipv4(&ipv4_text(&[last, 7, last, 0])), Some([last, 7, last, 0]));
    }
    for text in ["", "1.2.3", "1.2.3.4.5", "1.2.3.256", "1.2.3.04", "01.2.3.4", "1..3.4", "1.2.3.4 ", " 1.2.3.4", "1,2,3,4", "a.b.c.d", "1.2.3.", "999.1.1.1", "1.2.3.4000", "fe80::1"] {
        assert_eq!(parse_ipv4(text), None, "{}", text);
    }
}

#[test]
fn method_tags_read_back() {
    for (method, tag) in METHODS {
        assert_eq!(method.as_str(), tag);
        assert_eq!(DiscoveryMethod::from_tag(tag), Some(method));
    }
    for tag in ["", "arp", "MDNS", "ARP ", "SSDP"] {
        assert_eq!(DiscoveryMethod::from_tag(tag), None);
    }
}

#[test]
fn texts_compare_by_characters() {
    assert!(str_equal("", ""));
    assert!(str_equal("mDNS", "mDNS"));
    assert!(!str_equal("mDNS", "MDNS"));
    assert!(!str_equal("abc", "abcd"));
}

#[test]
fn private_ranges() {
    for ip in [[10, 0, 0, 0], [10, 255, 255, 255], [172, 16, 0, 0], [172, 31, 255, 255], [192, 168, 0, 0], [169, 254, 0, 1]] {
        assert!(IpAddress::V4(ip).is_private(), "{:?}", ip);
    }
    for ip in [[9, 255, 255, 255], [11, 0, 0, 0], [172, 15, 255, 255], [172, 32, 0, 0], [192, 169, 0, 0], [169, 255, 0, 0], [0, 0, 0, 0], [224, 0, 0, 251]] {
        assert!(!IpAddress::V4(ip).is_private(), "{:?}", ip);
    }
    let v6 = |first: u8, second: u8| {
        let mut octets = [0u8; 16];
        octets[0] = first;
        octets[1] = second;
        IpAddress::V6(octets)
    };
    for (first, second) in [(0xfc, 0x00), (0xfd, 0xff), (0xfe, 0x80), (0xfe, 0xbf)] {
        assert!(v6(first, second).is_private());
    }
    for (first, second) in [(0xfb, 0xff), (0xfe, 0x7f), (0xfe, 0xc0), (0xff, 0x02), (0x20, 0x01), (0x00, 0x00)] {
        assert!(!v6(first, second).is_private());
    }
}

#[test]
fn addresses_compare_by_octets() {
    let a = IpAddress::V4([10, 0, 0, 1]);
    assert!(a.same(&IpAddress::V4([10, 0, 0, 1])));
    assert!(!a.same(&IpAddress::V4([10, 0, 0, 2])));
    let mut octets = [0u8; 16];
    octets[0] = 10;
    octets[3] = 1;
    assert!(!a.same(&IpAddress::V6(octets)));
    assert!(IpAddress::V6(octets).same(&IpAddress::V6(octets)));
    assert!(MacAddress { octets: [1, 2, 3, 4, 5, 6] }.same(&MacAddress { octets: [1, 2, 3, 4, 5, 6] }));
    assert!(!MacAddress { octets: [1, 2, 3, 4, 5, 6] }.same(&MacAddress { octets: [1, 2, 3, 4, 5, 7] }));
}
