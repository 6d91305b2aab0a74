//! The inventory's vocabulary: addresses, discovery methods, timestamps,
//! discovery records and assets.

use vstd::prelude::*;

verus! {

/// Whether two byte arrays of one length hold the same bytes.
pub fn octets_equal<const N: usize>(a: &[u8; N], b: &[u8; N]) -> (r: bool)
    ensures
        r == (*a == *b),
{
    let mut i: usize = 0;
    while i < N
        invariant
            i <= N,
            forall|j: int| 0 <= j < i ==> a[j] == b[j],
        decreases N - i,
    {
        if a[i] != b[i] {
            return false;
        }
        i = i + 1;
    }
    assert(*a =~= *b);
    true
}

/// The characters of an optional text, or nothing.
pub open spec fn opt_text(s: Option<String>) -> Option<Seq<char>> {
    match s {
        Some(t) => Some(t@),
        None => None,
    }
}

/// A copy of an optional text.
pub fn clone_text(s: &Option<String>) -> (r: Option<String>)
    ensures
        r == *s,
{
    match s {
        Some(t) => Some(t.clone()),
        None => None,
    }
}

/// A 48-bit hardware address, the stable identity of a host.
#[derive(Clone, Copy, Debug, PartialEq, Eq)]
pub struct MacAddress {
    pub octets: [u8; 6],
}

impl MacAddress {
    /// The address as one integer, most significant octet first.
    pub open spec fn spec_key(self) -> int {
        self.octets[0] * 0x100_0000_0000 + self.octets[1] * 0x1_0000_0000 + self.octets[2]
            * 0x100_0000 + self.octets[3] * 0x1_0000 + self.octets[4] * 0x100 + self.octets[5]
    }

    /// The address as one integer below 2^48; distinct addresses give
    /// distinct integers (see `key_is_injective`).
    pub fn key(&self) -> (k: u64)
        ensures
            k == self.spec_key(),
            k < 0x1_0000_0000_0000,
    {
        let o = &self.octets;
        let k: u64 = (o[0] as u64) * 0x100_0000_0000 + (o[1] as u64) * 0x1_0000_0000 + (
        o[2] as u64) * 0x100_0000 + (o[3] as u64) * 0x1_0000 + (o[4] as u64) * 0x100 + (
        o[5] as u64);
        k
    }

    /// Whether two addresses are the same.
    pub fn same(&self, other: &MacAddress) -> (r: bool)
        ensures
            r == (*self == *other),
    {
        octets_equal(&self.octets, &other.octets)
    }
}

/// Two addresses with the same integer key are the same address.
pub proof fn key_is_injective(a: MacAddress, b: MacAddress)
    requires
        a.spec_key() == b.spec_key(),
    ensures
        a == b,
{
    let x = a.octets;
    let y = b.octets;
    let ha: int = x[0] * 0x100_0000_0000 + x[1] * 0x1_0000_0000 + x[2] * 0x100_0000 + x[3]
        * 0x1_0000 + x[4] * 0x100;
    let hb: int = y[0] * 0x100_0000_0000 + y[1] * 0x1_0000_0000 + y[2] * 0x100_0000 + y[3]
        * 0x1_0000 + y[4] * 0x100;
    assert(ha % 0x100 == 0 && hb % 0x100 == 0);
    assert(x[5] == y[5]);
    let ga: int = x[0] * 0x1_0000_0000 + x[1] * 0x100_0000 + x[2] * 0x1_0000 + x[3] * 0x100;
    let gb: int = y[0] * 0x1_0000_0000 + y[1] * 0x100_0000 + y[2] * 0x1_0000 + y[3] * 0x100;
    assert(ga + x[4] == gb + y[4]);
    assert(ga % 0x100 == 0 && gb % 0x100 == 0);
    assert(x[4] == y[4]);
    let fa: int = x[0] * 0x100_0000 + x[1] * 0x1_0000 + x[2] * 0x100;
    let fb: int = y[0] * 0x100_0000 + y[1] * 0x1_0000 + y[2] * 0x100;
    assert(fa + x[3] == fb + y[3]);
    assert(fa % 0x100 == 0 && fb % 0x100 == 0);
    assert(x[3] == y[3]);
    let ea: int = x[0] * 0x1_0000 + x[1] * 0x100;
    let eb: int = y[0] * 0x1_0000 + y[1] * 0x100;
    assert(ea + x[2] == eb + y[2]);
    assert(ea % 0x100 == 0 && eb % 0x100 == 0);
    assert(x[2] == y[2]);
    assert(x[0] * 0x100 + x[1] == y[0] * 0x100 + y[1]);
    assert(x[1] == y[1]);
    assert(x[0] == y[0]);
    assert(x =~= y);
}

/// Whether an IPv4 address lies in 10/8, 172.16/12, 192.168/16 or the
/// link-local block 169.254/16.
pub open spec fn spec_is_private_v4(ip: [u8; 4]) -> bool {
    ||| ip[0] == 10
    ||| (ip[0] == 172 && 16 <= ip[1] <= 31)
    ||| (ip[0] == 192 && ip[1] == 168)
    ||| (ip[0] == 169 && ip[1] == 254)
}

/// Whether an IPv6 address is unique-local (fc00::/7) or link-local
/// (fe80::/10).
pub open spec fn spec_is_private_v6(ip: [u8; 16]) -> bool {
    ||| ip[0] == 0xfc
    ||| ip[0] == 0xfd
    ||| (ip[0] == 0xfe && 0x80 <= ip[1] <= 0xbf)
}

/// A protocol address bound to a host at the time of an observation.
#[derive(Clone, Copy, Debug, PartialEq, Eq)]
pub enum IpAddress {
    V4([u8; 4]),
    V6([u8; 16]),
}

impl IpAddress {
    /// The address recorded for hosts seen at the link layer only.
    pub open spec fn spec_unspecified() -> IpAddress {
        IpAddress::V4([0u8, 0u8, 0u8, 0u8])
    }

    /// `0.0.0.0`, recorded for hosts seen at the link layer only.
    pub fn unspecified() -> (ip: IpAddress)
        ensures
            ip == Self::spec_unspecified(),
    {
        IpAddress::V4([0u8, 0u8, 0u8, 0u8])
    }

    /// Whether the address lies in a private or link-local range.
    pub open spec fn spec_is_private(self) -> bool {
        match self {
            IpAddress::V4(a) => spec_is_private_v4(a),
            IpAddress::V6(a) => spec_is_private_v6(a),
        }
    }

    /// Whether the address lies in a private or link-local range.
    pub fn is_private(&self) -> (r: bool)
        ensures
            r == self.spec_is_private(),
    {
        match self {
            IpAddress::V4(a) => {
                a[0] == 10 || (a[0] == 172 && a[1] >= 16 && a[1] <= 31) || (a[0] == 192 && a[1]
                    == 168) || (a[0] == 169 && a[1] == 254)
            },
            IpAddress::V6(a) => {
                a[0] == 0xfc || a[0] == 0xfd || (a[0] == 0xfe && a[1] >= 0x80 && a[1] <= 0xbf)
            },
        }
    }

    /// Whether two addresses are the same.
    pub fn same(&self, other: &IpAddress) -> (r: bool)
        ensures
            r == (*self == *other),
    {
        match (self, other) {
            (IpAddress::V4(x), IpAddress::V4(y)) => octets_equal(x, y),
            (IpAddress::V6(x), IpAddress::V6(y)) => octets_equal(x, y),
            _ => false,
        }
    }
}

/// The protocol through which a host was seen.
#[derive(Clone, Copy, Debug, PartialEq, Eq, Structural)]
pub enum DiscoveryMethod {
    Arp,
    Ndp,
    Dhcp,
    Dns,
    Mdns,
    Llmnr,
    Nbns,
    Lldp,
    Cdp,
}

impl DiscoveryMethod {
    /// The short tag under which the method is stored.
    pub open spec fn spec_tag(self) -> Seq<char> {
        match self {
            DiscoveryMethod::Arp => "ARP"@,
            DiscoveryMethod::Ndp => "NDP"@,
            DiscoveryMethod::Dhcp => "DHCP"@,
            DiscoveryMethod::Dns => "DNS"@,
            DiscoveryMethod::Mdns => "mDNS"@,
            DiscoveryMethod::Llmnr => "LLMNR"@,
            DiscoveryMethod::Nbns => "NBNS"@,
            DiscoveryMethod::Lldp => "LLDP"@,
            DiscoveryMethod::Cdp => "CDP"@,
        }
    }

    /// The short tag under which the method is stored.
    pub fn as_str(&self) -> (s: &'static str)
        ensures
            s@ == self.spec_tag(),
    {
        match self {
            DiscoveryMethod::Arp => "ARP",
            DiscoveryMethod::Ndp => "NDP",
            DiscoveryMethod::Dhcp => "DHCP",
            DiscoveryMethod::Dns => "DNS",
            DiscoveryMethod::Mdns => "mDNS",
            DiscoveryMethod::Llmnr => "LLMNR",
            DiscoveryMethod::Nbns => "NBNS",
            DiscoveryMethod::Lldp => "LLDP",
            DiscoveryMethod::Cdp => "CDP",
        }
    }
}

/// A point in time: microseconds since the Unix epoch, UTC.
#[derive(Clone, Copy, Debug, PartialEq, Eq, Structural)]
pub struct Timestamp {
    pub micros: i64,
}

/// What one frame reveals about its sender.
#[derive(Clone, Debug)]
pub struct DiscoveryRecord {
    pub mac: MacAddress,
    pub ip: IpAddress,
    pub method: DiscoveryMethod,
    pub hostname: Option<String>,
    pub vlan_id: u16,
}

/// A discovery record as a mathematical value.
pub struct DiscoveryRecordView {
    pub mac: MacAddress,
    pub ip: IpAddress,
    pub method: DiscoveryMethod,
    pub hostname: Option<Seq<char>>,
    pub vlan_id: u16,
}

impl View for DiscoveryRecord {
    type V = DiscoveryRecordView;

    open spec fn view(&self) -> DiscoveryRecordView {
        DiscoveryRecordView {
            mac: self.mac,
            ip: self.ip,
            method: self.method,
            hostname: opt_text(self.hostname),
            vlan_id: self.vlan_id,
        }
    }
}

/// A host of the inventory, keyed by its hardware address.
#[derive(Clone, Debug)]
pub struct Asset {
    pub mac_address: MacAddress,
    pub ip_address: IpAddress,
    pub hostname: Option<String>,
    pub vendor: Option<String>,
    pub vlan_id: u16,
    pub discovery_method: DiscoveryMethod,
    pub first_seen_at: Timestamp,
    pub last_seen_at: Timestamp,
}

/// An asset as a mathematical value.
pub struct AssetView {
    pub mac_address: MacAddress,
    pub ip_address: IpAddress,
    pub hostname: Option<Seq<char>>,
    pub vendor: Option<Seq<char>>,
    pub vlan_id: u16,
    pub discovery_method: DiscoveryMethod,
    pub first_seen_at: Timestamp,
    pub last_seen_at: Timestamp,
}

impl View for Asset {
    type V = AssetView;

    open spec fn view(&self) -> AssetView {
        AssetView {
            mac_address: self.mac_address,
            ip_address: self.ip_address,
            hostname: opt_text(self.hostname),
            vendor: opt_text(self.vendor),
            vlan_id: self.vlan_id,
            discovery_method: self.discovery_method,
            first_seen_at: self.first_seen_at,
            last_seen_at: self.last_seen_at,
        }
    }
}

/// An asset as a mathematical value, where there is one.
pub open spec fn opt_asset(a: Option<Asset>) -> Option<AssetView> {
    match a {
        Some(asset) => Some(asset@),
        None => None,
    }
}

/// The asset that a record seen at `observed_at` stands for: both
/// timestamps are the time of the observation.
pub open spec fn spec_observed(
    record: DiscoveryRecordView,
    vendor: Option<Seq<char>>,
    observed_at: Timestamp,
) -> AssetView {
    AssetView {
        mac_address: record.mac,
        ip_address: record.ip,
        hostname: record.hostname,
        vendor,
        vlan_id: record.vlan_id,
        discovery_method: record.method,
        first_seen_at: observed_at,
        last_seen_at: observed_at,
    }
}

impl Asset {
    /// A copy of the asset.
    pub fn duplicate(&self) -> (copy: Asset)
        ensures
            copy == *self,
    {
        Asset {
            mac_address: self.mac_address,
            ip_address: self.ip_address,
            hostname: clone_text(&self.hostname),
            vendor: clone_text(&self.vendor),
            vlan_id: self.vlan_id,
            discovery_method: self.discovery_method,
            first_seen_at: self.first_seen_at,
            last_seen_at: self.last_seen_at,
        }
    }

    /// Turns a record into an asset first and last seen at `observed_at`.
    pub fn observed(record: DiscoveryRecord, vendor: Option<String>, observed_at: Timestamp) -> (asset:
        Asset)
        ensures
            asset@ == spec_observed(record@, opt_text(vendor), observed_at),
    {
        Asset {
            mac_address: record.mac,
            ip_address: record.ip,
            hostname: record.hostname,
            vendor,
            vlan_id: record.vlan_id,
            discovery_method: record.method,
            first_seen_at: observed_at,
            last_seen_at: observed_at,
        }
    }
}

} // verus!
