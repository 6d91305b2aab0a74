//! The inventory as it is listed: hosts grouped by VLAN and ordered by
//! address, and the number of hosts in each VLAN.

use crate::model::{Asset, IpAddress};
use crate::order::{sorted_order, spec_is_ascending, spec_is_permutation, spec_is_stable, SortKey};
use vstd::prelude::*;

verus! {

/// The number that eight octets spell, most significant first.
pub open spec fn spec_be64(o: Seq<u8>) -> int {
    o[0] * 0x100_0000_0000_0000 + o[1] * 0x1_0000_0000_0000 + o[2] * 0x100_0000_0000 + o[3]
        * 0x1_0000_0000 + o[4] * 0x100_0000 + o[5] * 0x1_0000 + o[6] * 0x100 + o[7]
}

/// The key under which an asset is listed: its VLAN first, then IPv6
/// before IPv4, then the address as a number.
pub open spec fn spec_listing_key(vlan_id: u16, ip: IpAddress) -> SortKey {
    match ip {
        IpAddress::V6(o) => SortKey {
            major: (vlan_id * 2) as u64,
            middle: spec_be64(o@.subrange(0, 8)) as u64,
            minor: spec_be64(o@.subrange(8, 16)) as u64,
        },
        IpAddress::V4(o) => SortKey {
            major: (vlan_id * 2 + 1) as u64,
            middle: 0,
            minor: (o[0] * 0x100_0000 + o[1] * 0x1_0000 + o[2] * 0x100 + o[3]) as u64,
        },
    }
}

/// The listing keys of a sequence of assets.
pub open spec fn spec_listing_keys(assets: Seq<Asset>) -> Seq<SortKey> {
    assets.map_values(|a: Asset| spec_listing_key(a.vlan_id, a.ip_address))
}

fn be64(o: &[u8; 16], at: usize) -> (v: u64)
    requires
        at == 0 || at == 8,
    ensures
        v == spec_be64(o@.subrange(at as int, at + 8)),
{
    let ghost part = o@.subrange(at as int, at + 8);
    assert(part[0] == o[at as int] && part[1] == o[at + 1] && part[2] == o[at + 2] && part[3]
        == o[at + 3] && part[4] == o[at + 4] && part[5] == o[at + 5] && part[6] == o[at + 6]
        && part[7] == o[at + 7]);
    (o[at] as u64) * 0x100_0000_0000_0000 + (o[at + 1] as u64) * 0x1_0000_0000_0000 + (o[at
        + 2] as u64) * 0x100_0000_0000 + (o[at + 3] as u64) * 0x1_0000_0000 + (o[at + 4] as u64)
        * 0x100_0000 + (o[at + 5] as u64) * 0x1_0000 + (o[at + 6] as u64) * 0x100 + (o[at
        + 7] as u64)
}

fn listing_key(asset: &Asset) -> (key: SortKey)
    ensures
        key == spec_listing_key(asset.vlan_id, asset.ip_address),
{
    match &asset.ip_address {
        IpAddress::V6(o) => SortKey {
            major: (asset.vlan_id as u64) * 2,
            middle: be64(o, 0),
            minor: be64(o, 8),
        },
        IpAddress::V4(o) => SortKey {
            major: (asset.vlan_id as u64) * 2 + 1,
            middle: 0,
            minor: (o[0] as u64) * 0x100_0000 + (o[1] as u64) * 0x1_0000 + (o[2] as u64) * 0x100
                + (o[3] as u64),
        },
    }
}

/// The order in which assets are listed: by VLAN, within a VLAN the IPv6
/// hosts before the IPv4 hosts, within a family by address. The result
/// names each index of `assets` once; hosts with one key stay in the order
/// in which they stand.
pub fn listing_order(assets: &Vec<Asset>) -> (order: Vec<usize>)
    ensures
        spec_is_permutation(order@, assets@.len() as int),
        spec_is_ascending(order@, spec_listing_keys(assets@)),
        spec_is_stable(order@, spec_listing_keys(assets@)),
{
    let mut keys: Vec<SortKey> = Vec::new();
    let mut n: usize = 0;
    while n < assets.len()
        invariant
            n <= assets@.len(),
            keys@ == spec_listing_keys(assets@.subrange(0, n as int)),
        decreases assets@.len() - n,
    {
        keys.push(listing_key(&assets[n]));
        assert(keys@ =~= spec_listing_keys(assets@.subrange(0, n + 1)));
        n = n + 1;
    }
    assert(assets@.subrange(0, n as int) =~= assets@);
    sorted_order(&keys)
}

/// The number of hosts of one VLAN.
#[derive(Clone, Copy, Debug, PartialEq, Eq, Structural)]
pub struct VlanCount {
    pub vlan_id: u16,
    pub hosts: usize,
}

/// How many assets of a sequence lie in a VLAN.
pub open spec fn spec_hosts_in(assets: Seq<Asset>, vlan_id: u16) -> nat
    decreases assets.len(),
{
    if assets.len() == 0 {
        0
    } else {
        spec_hosts_in(assets.drop_last(), vlan_id) + if assets.last().vlan_id == vlan_id {
            1nat
        } else {
            0nat
        }
    }
}

/// Whether `counts` tells, in ascending order of VLAN, the number of hosts
/// of each VLAN that has any.
pub open spec fn spec_is_summary_of(counts: Seq<VlanCount>, assets: Seq<Asset>) -> bool {
    &&& forall|i: int, j: int|
        0 <= i < j < counts.len() ==> (#[trigger] counts[i]).vlan_id < (#[trigger] counts[j]).vlan_id
    &&& forall|i: int|
        0 <= i < counts.len() ==> (#[trigger] counts[i]).hosts > 0 && counts[i].hosts
            == spec_hosts_in(assets, counts[i].vlan_id)
    &&& forall|vlan_id: u16| #[trigger]
        spec_hosts_in(assets, vlan_id) > 0 ==> exists|i: int|
            0 <= i < counts.len() && (#[trigger] counts[i]).vlan_id == vlan_id
}

proof fn lemma_hosts_in_is_bounded(assets: Seq<Asset>, vlan_id: u16)
    ensures
        spec_hosts_in(assets, vlan_id) <= assets.len(),
    decreases assets.len(),
{
    if assets.len() > 0 {
        lemma_hosts_in_is_bounded(assets.drop_last(), vlan_id);
    }
}

/// The number of hosts in each VLAN, in ascending order of VLAN.
pub fn vlan_summary(assets: &Vec<Asset>) -> (counts: Vec<VlanCount>)
    ensures
        spec_is_summary_of(counts@, assets@),
{
    let mut counts: Vec<VlanCount> = Vec::new();
    let mut n: usize = 0;
    while n < assets.len()
        invariant
            n <= assets@.len(),
            spec_is_summary_of(counts@, assets@.subrange(0, n as int)),
        decreases assets@.len() - n,
    {
        let vlan_id = assets[n].vlan_id;
        let ghost seen = assets@.subrange(0, n as int);
        let ghost next = assets@.subrange(0, n + 1);
        proof {
            assert(next.drop_last() =~= seen);
            assert(next.last() == assets@[n as int]);
            lemma_hosts_in_is_bounded(seen, vlan_id);
        }
        let mut p: usize = 0;
        while p < counts.len() && counts[p].vlan_id < vlan_id
            invariant
                p <= counts@.len(),
                forall|i: int| 0 <= i < p ==> (#[trigger] counts@[i]).vlan_id < vlan_id,
            decreases counts@.len() - p,
        {
            p = p + 1;
        }
        let ghost before = counts@;
        if p < counts.len() && counts[p].vlan_id == vlan_id {
            let hosts = counts[p].hosts;
            counts[p] = VlanCount { vlan_id, hosts: hosts + 1 };
            proof {
                let after = counts@;
                assert forall|i: int| 0 <= i < after.len() implies (#[trigger] after[i]).hosts > 0
                    && after[i].hosts == spec_hosts_in(next, after[i].vlan_id) by {
                    if i != p {
                        assert(after[i] == before[i]);
                        assert(before[i].vlan_id != vlan_id);
                    }
                }
                assert forall|v: u16| #[trigger] spec_hosts_in(next, v) > 0 implies exists|i: int|
                    0 <= i < after.len() && (#[trigger] after[i]).vlan_id == v by {
                    if v == vlan_id {
                        assert(after[p as int].vlan_id == v);
                    } else {
                        assert(spec_hosts_in(seen, v) > 0);
                        let i = choose|i: int| 0 <= i < before.len() && (#[trigger] before[i]).vlan_id == v;
                        assert(after[i].vlan_id == v);
                    }
                }
            }
        } else {
            proof {
                // No entry has this VLAN, so no host seen so far lies in it.
                if spec_hosts_in(seen, vlan_id) > 0 {
                    let i = choose|i: int| 0 <= i < before.len() && (#[trigger] before[i]).vlan_id == vlan_id;
                    if i < p {
                    } else {
                        assert(before[p as int].vlan_id <= before[i].vlan_id);
                    }
                    assert(false);
                }
            }
            counts.insert(p, VlanCount { vlan_id, hosts: 1 });
            proof {
                let after = counts@;
                assert forall|i: int, j: int| 0 <= i < j < after.len() implies (
                #[trigger] after[i]).vlan_id < (#[trigger] after[j]).vlan_id by {
                    if i != p {
                        assert(after[i] == before[if i < p {
                            i
                        } else {
                            i - 1
                        }]);
                    }
                    if j != p {
                        assert(after[j] == before[if j < p {
                            j
                        } else {
                            j - 1
                        }]);
                    }
                    if i == p {
                        assert(before[p as int].vlan_id <= before[j - 1].vlan_id);
                    }
                }
                assert forall|i: int| 0 <= i < after.len() implies (#[trigger] after[i]).hosts > 0
                    && after[i].hosts == spec_hosts_in(next, after[i].vlan_id) by {
                    if i < p {
                        assert(after[i] == before[i]);
                    } else if i > p {
                        assert(after[i] == before[i - 1]);
                        assert(before[i - 1].vlan_id != vlan_id);
                    }
                }
                assert forall|v: u16| #[trigger] spec_hosts_in(next, v) > 0 implies exists|i: int|
                    0 <= i < after.len() && (#[trigger] after[i]).vlan_id == v by {
                    if v == vlan_id {
                        assert(after[p as int].vlan_id == v);
                    } else {
                        assert(spec_hosts_in(seen, v) > 0);
                        let i = choose|i: int| 0 <= i < before.len() && (#[trigger] before[i]).vlan_id == v;
                        if i < p {
                            assert(after[i].vlan_id == v);
                        } else {
                            assert(after[i + 1].vlan_id == v);
                        }
                    }
                }
            }
        }
        n = n + 1;
    }
    assert(assets@.subrange(0, n as int) =~= assets@);
    counts
}

} // verus!
