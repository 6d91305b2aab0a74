use fieldwatcher::listing::{listing_order, vlan_summary, VlanCount};
use fieldwatcher::model::{Asset, DiscoveryMethod, IpAddress, MacAddress, Timestamp};
use fieldwatcher::order::{sorted_order, SortKey};

fn listed(vlan_id: u16, ip: IpAddress) -> Asset {
    Asset {
        mac_address: MacAddress { octets: [2, 0, 0, 0, 0, 0] },
        ip_address: ip,
        hostname: None,
        vendor: None,
        vlan_id,
        discovery_method: DiscoveryMethod::Arp,
        first_seen_at: Timestamp { micros: 0 },
        last_seen_at: Timestamp { micros: 0 },
    }
}

fn v6(first: u8, ninth: u8, last: u8) -> IpAddress {
    let mut octets = [0u8; 16];
    octets[0] = first;
    octets[8] = ninth;
    octets[15] = last;
    IpAddress::V6(octets)
}

fn key(major: u64, middle: u64, minor: u64) -> SortKey {
    SortKey { major, middle, minor }
}

#[test]
fn keys_compare_field_by_field() {
    assert!(key(1, 9, 9).le(&key(2, 0, 0)));
    assert!(key(1, 1, 9).le(&key(1, 2, 0)));
    assert!(key(1, 1, 1).le(&key(1, 1, 1)));
    assert!(key(1, 1, 1).le(&key(1, 1, 2)));
    assert!(!key(2, 0, 0).le(&key(1, 9, 9)));
    assert!(!key(1, 2, 0).le(&key(1, 1, 9)));
    assert!(!key(1, 1, 2).le(&key(1, 1, 1)));
    assert!(key(0, 0, u64::MAX).le(&key(0, 1, 0)));
}

#[test]
fn sorted_order_is_ascending_and_stable() {
    assert!(sorted_order(&vec![]).is_empty());
    assert_eq!(sorted_order(&vec![key(5, 0, 0)]), vec![0]);
    let keys = vec![key(3, 0, 0), key(1, 0, 0), key(2, 0, 0), key(1, 0, 0), key(3, 0, 0), key(0, 7, 7)];
    assert_eq!(sorted_order(&keys), vec![5, 1, 3, 2, 0, 4]);
    let descending: Vec<SortKey> = (0..20).rev().map(|n| key(0, n, 0)).collect();
    let expected: Vec<usize> = (0..20).rev().collect();
    assert_eq!(sorted_order(&descending), expected);
}

#[test]
fn listing_goes_by_vlan_then_family_then_address() {
    let assets = vec![
        listed(40, IpAddress::V4([10, 0, 40, 7])),
        listed(1, IpAddress::V4([192, 168, 1, 50])),
        listed(1, IpAddress::V4([192, 168, 1, 9])),
        listed(1, v6(0xfe, 0, 2)),
        listed(40, IpAddress::V4([10, 0, 9, 200])),
        listed(1, IpAddress::V4([10, 255, 0, 1])),
        listed(1, v6(0xfd, 1, 0)),
        listed(1, v6(0xfe, 0, 1)),
        listed(0, IpAddress::V4([0, 0, 0, 0])),
        listed(65535, v6(0xfe, 0xff, 0xff)),
    ];
    assert_eq!(listing_order(&assets), vec![8, 6, 7, 3, 5, 2, 1, 4, 0, 9]);
    assert!(listing_order(&vec![]).is_empty());
}

#[test]
fn listing_keeps_equal_hosts_in_place() {
    let assets = vec![
        listed(1, IpAddress::V4([10, 0, 0, 1])),
        listed(1, IpAddress::V4([10, 0, 0, 1])),
        listed(1, IpAddress::V4([10, 0, 0, 0])),
        listed(1, IpAddress::V4([10, 0, 0, 1])),
    ];
    assert_eq!(listing_order(&assets), vec![2, 0, 1, 3]);
}

#[test]
fn summary_counts_hosts_per_vlan() {
    assert!(vlan_summary(&vec![]).is_empty());
    let assets: Vec<Asset> = [40u16, 1, 1, 7, 40, 1, 65535, 0]
        .iter()
        .map(|vlan_id| listed(*vlan_id, IpAddress::V4([10, 0, 0, 1])))
        .collect();
    assert_eq!(
        vlan_summary(&assets),
        vec![
            VlanCount { vlan_id: 0, hosts: 1 },
            VlanCount { vlan_id: 1, hosts: 3 },
            VlanCount { vlan_id: 7, hosts: 1 },
            VlanCount { vlan_id: 40, hosts: 2 },
            VlanCount { vlan_id: 65535, hosts: 1 },
        ]
    );
}
