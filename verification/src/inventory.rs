//! The inventory rules: how a write merges with the stored row of its
//! host, and the table of rows that these writes maintain.

use crate::model::{clone_text, opt_asset, Asset, AssetView, MacAddress, Timestamp};
use crate::order::{sorted_order, spec_is_permutation, SortKey};
use vstd::prelude::*;

verus! {

/// The first of two optional values that is present.
pub open spec fn spec_coalesce<T>(first: Option<T>, second: Option<T>) -> Option<T> {
    match first {
        Some(v) => Some(v),
        None => second,
    }
}

/// The row that a write leaves for its host. A new host gets the written
/// asset as it is. A known host takes address, VLAN, method and last-seen
/// time from the write, keeps its first-seen time, and keeps host name and
/// vendor where the write brings none.
pub open spec fn spec_upsert(stored: Option<AssetView>, incoming: AssetView) -> AssetView {
    match stored {
        None => incoming,
        Some(row) => AssetView {
            mac_address: incoming.mac_address,
            ip_address: incoming.ip_address,
            hostname: spec_coalesce(incoming.hostname, row.hostname),
            vendor: spec_coalesce(incoming.vendor, row.vendor),
            vlan_id: incoming.vlan_id,
            discovery_method: incoming.discovery_method,
            first_seen_at: row.first_seen_at,
            last_seen_at: incoming.last_seen_at,
        },
    }
}

/// Merges a write with the stored row of its host, if there is one. A
/// stored host name or vendor is never lost, and the first-seen time of a
/// stored row never changes.
pub fn upsert(stored: Option<&Asset>, incoming: Asset) -> (row: Asset)
    ensures
        row@ == spec_upsert(
            match stored {
                Some(s) => Some(s@),
                None => None,
            },
            incoming@,
        ),
        stored matches Some(s) ==> row.first_seen_at == s.first_seen_at,
        stored matches Some(s) ==> (s.hostname is Some ==> row.hostname is Some),
        stored matches Some(s) ==> (s.vendor is Some ==> row.vendor is Some),
{
    match stored {
        None => incoming,
        Some(s) => {
            let hostname = match incoming.hostname {
                Some(name) => Some(name),
                None => clone_text(&s.hostname),
            };
            let vendor = match incoming.vendor {
                Some(name) => Some(name),
                None => clone_text(&s.vendor),
            };
            Asset {
                mac_address: incoming.mac_address,
                ip_address: incoming.ip_address,
                hostname,
                vendor,
                vlan_id: incoming.vlan_id,
                discovery_method: incoming.discovery_method,
                first_seen_at: s.first_seen_at,
                last_seen_at: incoming.last_seen_at,
            }
        },
    }
}

/// The row of a host after a run of writes for it, starting from the row
/// `initial` (none for a host that is new).
pub open spec fn spec_row_after(initial: Option<AssetView>, writes: Seq<AssetView>) -> Option<
    AssetView,
>
    decreases writes.len(),
{
    if writes.len() == 0 {
        initial
    } else {
        Some(spec_upsert(spec_row_after(initial, writes.drop_last()), writes.last()))
    }
}

/// The row of a host in a table, where there is one.
pub open spec fn spec_row_of(table: Map<MacAddress, AssetView>, mac: MacAddress) -> Option<AssetView> {
    if table.contains_key(mac) {
        Some(table[mac])
    } else {
        None
    }
}

/// The table after one write: the row of the written host is merged with
/// the write, and every other row stays.
pub open spec fn spec_table_written(table: Map<MacAddress, AssetView>, write: AssetView) -> Map<
    MacAddress,
    AssetView,
> {
    table.insert(write.mac_address, spec_upsert(spec_row_of(table, write.mac_address), write))
}

/// The table after a run of writes.
pub open spec fn spec_table_after(table: Map<MacAddress, AssetView>, writes: Seq<AssetView>) -> Map<
    MacAddress,
    AssetView,
>
    decreases writes.len(),
{
    if writes.len() == 0 {
        table
    } else {
        spec_table_written(spec_table_after(table, writes.drop_last()), writes.last())
    }
}

/// A run of writes for one host leaves every other row of the table as it
/// was, and leaves the host the row that the run gives when merged write
/// by write.
pub proof fn table_row_follows_its_writes(
    table: Map<MacAddress, AssetView>,
    writes: Seq<AssetView>,
    mac: MacAddress,
)
    requires
        forall|i: int| 0 <= i < writes.len() ==> (#[trigger] writes[i]).mac_address == mac,
    ensures
        spec_row_of(spec_table_after(table, writes), mac) == spec_row_after(
            spec_row_of(table, mac),
            writes,
        ),
        forall|other: MacAddress|
            other != mac ==> spec_row_of(spec_table_after(table, writes), other) == spec_row_of(
                table,
                other,
            ),
    decreases writes.len(),
{
    if writes.len() > 0 {
        let head = writes.drop_last();
        assert forall|i: int| 0 <= i < head.len() implies (#[trigger] head[i]).mac_address == mac by {
            assert(head[i] == writes[i]);
        }
        table_row_follows_its_writes(table, head, mac);
        assert(writes.last() == writes[writes.len() - 1]);
    }
}

/// The earliest last-seen time among the writes of a non-empty run.
pub open spec fn spec_earliest(writes: Seq<AssetView>) -> int
    decreases writes.len(),
{
    if writes.len() <= 1 {
        writes[0].last_seen_at.micros as int
    } else {
        let rest = spec_earliest(writes.drop_last());
        if writes.last().last_seen_at.micros < rest {
            writes.last().last_seen_at.micros as int
        } else {
            rest
        }
    }
}

/// The latest last-seen time among the writes of a non-empty run.
pub open spec fn spec_latest(writes: Seq<AssetView>) -> int
    decreases writes.len(),
{
    if writes.len() <= 1 {
        writes[0].last_seen_at.micros as int
    } else {
        let rest = spec_latest(writes.drop_last());
        if writes.last().last_seen_at.micros > rest {
            writes.last().last_seen_at.micros as int
        } else {
            rest
        }
    }
}

/// The host name that the last write with a host name brings, or the
/// initial one where no write brings any.
pub open spec fn spec_latest_hostname(initial: Option<Seq<char>>, writes: Seq<AssetView>) -> Option<
    Seq<char>,
>
    decreases writes.len(),
{
    if writes.len() == 0 {
        initial
    } else if writes.last().hostname is Some {
        writes.last().hostname
    } else {
        spec_latest_hostname(initial, writes.drop_last())
    }
}

/// Whether each write of a run carries one time of observation as both of
/// its timestamps, as the capture workers produce them.
pub open spec fn spec_are_observations(writes: Seq<AssetView>) -> bool {
    forall|i: int| 0 <= i < writes.len() ==> (#[trigger] writes[i]).first_seen_at == writes[i].last_seen_at
}

/// After a non-empty run of writes for a new host, the row is first seen
/// at the first write's time and last seen at the last write's time.
pub proof fn row_spans_first_to_last_write(writes: Seq<AssetView>)
    requires
        writes.len() > 0,
    ensures
        spec_row_after(None, writes) is Some,
        spec_row_after(None, writes)->0.first_seen_at == writes[0].first_seen_at,
        spec_row_after(None, writes)->0.last_seen_at == writes.last().last_seen_at,
    decreases writes.len(),
{
    let head = writes.drop_last();
    if writes.len() > 1 {
        row_spans_first_to_last_write(head);
        assert(head[0] == writes[0]);
    } else {
        assert(spec_row_after(None, head) == None::<AssetView>);
        assert(writes.last() == writes[0]);
    }
}

/// The earliest time of a run is no later, and the latest no earlier, than
/// any of its writes; and both are the time of some write.
pub proof fn earliest_and_latest_bound_the_run(writes: Seq<AssetView>)
    requires
        writes.len() > 0,
    ensures
        forall|i: int|
            0 <= i < writes.len() ==> spec_earliest(writes) <= (#[trigger] writes[i]).last_seen_at.micros
                <= spec_latest(writes),
        exists|i: int| 0 <= i < writes.len() && spec_earliest(writes) == (#[trigger] writes[i]).last_seen_at.micros,
        exists|i: int| 0 <= i < writes.len() && spec_latest(writes) == (#[trigger] writes[i]).last_seen_at.micros,
    decreases writes.len(),
{
    if writes.len() > 1 {
        let head = writes.drop_last();
        earliest_and_latest_bound_the_run(head);
        assert forall|i: int| 0 <= i < writes.len() implies spec_earliest(writes) <= (
        #[trigger] writes[i]).last_seen_at.micros <= spec_latest(writes) by {
            if i < head.len() {
                assert(head[i] == writes[i]);
            }
        }
        let lo = choose|i: int| 0 <= i < head.len() && spec_earliest(head) == (#[trigger] head[i]).last_seen_at.micros;
        let hi = choose|i: int| 0 <= i < head.len() && spec_latest(head) == (#[trigger] head[i]).last_seen_at.micros;
        assert(head[lo] == writes[lo]);
        assert(head[hi] == writes[hi]);
        let last = writes.len() - 1;
        if writes.last().last_seen_at.micros < spec_earliest(head) {
            assert(spec_earliest(writes) == writes[last].last_seen_at.micros);
        } else {
            assert(spec_earliest(writes) == writes[lo].last_seen_at.micros);
        }
        if writes.last().last_seen_at.micros > spec_latest(head) {
            assert(spec_latest(writes) == writes[last].last_seen_at.micros);
        } else {
            assert(spec_latest(writes) == writes[hi].last_seen_at.micros);
        }
    } else {
        assert(spec_earliest(writes) == writes[0].last_seen_at.micros);
        assert(spec_latest(writes) == writes[0].last_seen_at.micros);
    }
}

/// For a new host whose observations are written in such an order that
/// none is earlier than the first or later than the last, the row is first
/// seen at the earliest and last seen at the latest time of observation.
pub proof fn row_spans_earliest_to_latest(writes: Seq<AssetView>)
    requires
        writes.len() > 0,
        spec_are_observations(writes),
        forall|i: int|
            0 <= i < writes.len() ==> writes[0].last_seen_at.micros <= (#[trigger] writes[i]).last_seen_at.micros
                <= writes.last().last_seen_at.micros,
    ensures
        spec_row_after(None, writes) is Some,
        spec_row_after(None, writes)->0.first_seen_at.micros == spec_earliest(writes),
        spec_row_after(None, writes)->0.last_seen_at.micros == spec_latest(writes),
        spec_row_after(None, writes)->0.first_seen_at.micros <= spec_row_after(
            None,
            writes,
        )->0.last_seen_at.micros,
{
    row_spans_first_to_last_write(writes);
    earliest_and_latest_bound_the_run(writes);
    assert(writes[0].first_seen_at == writes[0].last_seen_at);
    let last = writes.len() - 1;
    assert(writes[last] == writes.last());
}

/// The row's host name after a run of writes is the one that the last
/// write with a host name brought; where any write brought one, the row
/// has one.
pub proof fn hostname_is_latest_known(initial: Option<AssetView>, writes: Seq<AssetView>)
    requires
        writes.len() > 0,
    ensures
        spec_row_after(initial, writes) is Some,
        spec_row_after(initial, writes)->0.hostname == spec_latest_hostname(
            match initial {
                Some(row) => row.hostname,
                None => None,
            },
            writes,
        ),
        (exists|i: int| 0 <= i < writes.len() && (#[trigger] writes[i]).hostname is Some)
            ==> spec_row_after(initial, writes)->0.hostname is Some,
    decreases writes.len(),
{
    let head = writes.drop_last();
    let start = match initial {
        Some(row) => row.hostname,
        None => None,
    };
    if head.len() > 0 {
        hostname_is_latest_known(initial, head);
        if writes.last().hostname is None {
            if exists|i: int| 0 <= i < writes.len() && (#[trigger] writes[i]).hostname is Some {
                let k = choose|i: int| 0 <= i < writes.len() && (#[trigger] writes[i]).hostname is Some;
                assert(k < head.len());
                assert(head[k] == writes[k]);
            }
        }
    } else {
        assert(spec_row_after(initial, head) == initial);
        assert(spec_latest_hostname(start, head) == start);
        if writes.last().hostname is None {
            if exists|i: int| 0 <= i < writes.len() && (#[trigger] writes[i]).hostname is Some {
                let k = choose|i: int| 0 <= i < writes.len() && (#[trigger] writes[i]).hostname is Some;
                assert(k == 0);
                assert(writes[k] == writes.last());
            }
        }
    }
}

/// A row that has a vendor keeps having one, whatever is written.
pub proof fn vendor_is_never_lost(initial: AssetView, writes: Seq<AssetView>)
    requires
        initial.vendor is Some,
    ensures
        spec_row_after(Some(initial), writes) is Some,
        spec_row_after(Some(initial), writes)->0.vendor is Some,
    decreases writes.len(),
{
    if writes.len() > 0 {
        vendor_is_never_lost(initial, writes.drop_last());
    }
}

/// A row's first-seen time never changes, and while writes arrive in the
/// order of their times, its last-seen time never goes back and never lies
/// before its first-seen time.
pub proof fn timestamps_are_monotone(stored: AssetView, incoming: AssetView)
    requires
        stored.first_seen_at.micros <= stored.last_seen_at.micros,
        stored.last_seen_at.micros <= incoming.last_seen_at.micros,
    ensures
        spec_upsert(Some(stored), incoming).first_seen_at == stored.first_seen_at,
        spec_upsert(Some(stored), incoming).last_seen_at.micros >= stored.last_seen_at.micros,
        spec_upsert(Some(stored), incoming).first_seen_at.micros <= spec_upsert(
            Some(stored),
            incoming,
        ).last_seen_at.micros,
{
}

/// The key under which a row last seen at `t` sorts: the later the time,
/// the smaller the key.
pub open spec fn spec_recency_key(t: Timestamp) -> SortKey {
    SortKey { major: (i64::MAX - t.micros) as u64, middle: 0, minor: 0 }
}

fn recency_key(t: Timestamp) -> (key: SortKey)
    ensures
        key == spec_recency_key(t),
{
    let distance: i128 = i64::MAX as i128 - t.micros as i128;
    SortKey { major: distance as u64, middle: 0, minor: 0 }
}

/// Whether the assets of a sequence come with the most recently seen
/// first.
pub open spec fn spec_is_latest_first(rows: Seq<Asset>) -> bool {
    forall|i: int, j: int|
        0 <= i < j < rows.len() ==> (#[trigger] rows[i]).last_seen_at.micros >= (
        #[trigger] rows[j]).last_seen_at.micros
}

/// Whether no two assets of a sequence have the same hardware address.
pub open spec fn spec_has_distinct_hosts(rows: Seq<Asset>) -> bool {
    forall|i: int, j: int|
        0 <= i < j < rows.len() ==> (#[trigger] rows[i]).mac_address != (
        #[trigger] rows[j]).mac_address
}

/// The table of assets: at most one row for each hardware address.
pub struct Inventory {
    rows: Vec<Asset>,
}

impl View for Inventory {
    type V = Map<MacAddress, AssetView>;

    /// The rows of the table, by hardware address.
    closed spec fn view(&self) -> Map<MacAddress, AssetView> {
        Map::new(
            |mac: MacAddress| exists|i: int| self.holds_at(i, mac),
            |mac: MacAddress| self.rows@[choose|i: int| self.holds_at(i, mac)]@,
        )
    }
}

impl Inventory {
    /// Whether the table holds the row of `mac` at index `i`.
    pub closed spec fn holds_at(&self, i: int, mac: MacAddress) -> bool {
        0 <= i < self.rows@.len() && self.rows@[i].mac_address == mac
    }

    /// The table's invariant: no two rows have the same hardware address.
    pub closed spec fn well_formed(&self) -> bool {
        spec_has_distinct_hosts(self.rows@)
    }

    proof fn row_is_viewed(&self, i: int)
        requires
            self.well_formed(),
            0 <= i < self.rows@.len(),
        ensures
            self@.contains_key(self.rows@[i].mac_address),
            self@[self.rows@[i].mac_address] == self.rows@[i]@,
    {
        let mac = self.rows@[i].mac_address;
        assert(self.holds_at(i, mac));
        let k = choose|k: int| self.holds_at(k, mac);
        assert(k == i);
    }

    /// An empty table.
    pub fn new() -> (inventory: Inventory)
        ensures
            inventory.well_formed(),
            inventory@ == Map::<MacAddress, AssetView>::empty(),
    {
        let inventory = Inventory { rows: Vec::new() };
        assert(inventory@ =~= Map::<MacAddress, AssetView>::empty());
        inventory
    }

    fn position(&self, mac: &MacAddress) -> (found: Option<usize>)
        requires
            self.well_formed(),
        ensures
            match found {
                Some(i) => self.holds_at(i as int, *mac),
                None => !self@.contains_key(*mac),
            },
    {
        let mut i: usize = 0;
        while i < self.rows.len()
            invariant
                i <= self.rows@.len(),
                forall|j: int| 0 <= j < i ==> !self.holds_at(j, *mac),
            decreases self.rows@.len() - i,
        {
            if self.rows[i].mac_address.same(mac) {
                return Some(i);
            }
            i = i + 1;
        }
        None
    }

    /// The row of a host, where the table has one.
    pub fn get(&self, mac: &MacAddress) -> (row: Option<Asset>)
        requires
            self.well_formed(),
        ensures
            opt_asset(row) == spec_row_of(self@, *mac),
    {
        match self.position(mac) {
            Some(i) => {
                proof {
                    self.row_is_viewed(i as int);
                }
                Some(self.rows[i].duplicate())
            },
            None => None,
        }
    }

    /// Writes an asset: inserts the row of a new host, and merges the
    /// write into the row of a known one. No other row changes.
    pub fn sync_asset(&mut self, asset: Asset)
        requires
            old(self).well_formed(),
        ensures
            final(self).well_formed(),
            final(self)@ == spec_table_written(old(self)@, asset@),
    {
        let mac = asset.mac_address;
        let ghost before = *self;
        let ghost incoming = asset@;
        match self.position(&mac) {
            Some(i) => {
                proof {
                    self.row_is_viewed(i as int);
                }
                let row = upsert(Some(&self.rows[i]), asset);
                let ghost merged = row@;
                self.rows[i] = row;
                proof {
                    assert(self.rows@ == before.rows@.update(i as int, row));
                    assert(self.well_formed());
                    let after = before@.insert(mac, merged);
                    assert forall|m: MacAddress| #[trigger]
                        self@.contains_key(m) == after.contains_key(m) && (self@.contains_key(m)
                            ==> self@[m] == after[m]) by {
                        if m == mac {
                            self.row_is_viewed(i as int);
                        } else {
                            if before@.contains_key(m) {
                                let k = choose|k: int| before.holds_at(k, m);
                                assert(k != i);
                                assert(self.holds_at(k, m));
                                self.row_is_viewed(k);
                                before.row_is_viewed(k);
                            }
                            if self@.contains_key(m) {
                                let k = choose|k: int| self.holds_at(k, m);
                                assert(k != i);
                                assert(before.holds_at(k, m));
                                self.row_is_viewed(k);
                                before.row_is_viewed(k);
                            }
                        }
                    }
                    assert(self@ =~= after);
                }
            },
            None => {
                self.rows.push(asset);
                proof {
                    let n = before.rows@.len() as int;
                    assert(self.rows@ == before.rows@.push(asset));
                    assert forall|a: int, b: int| 0 <= a < b < self.rows@.len() implies (
                    #[trigger] self.rows@[a]).mac_address != (
                    #[trigger] self.rows@[b]).mac_address by {
                        if b == n {
                            assert(!before.holds_at(a, mac));
                        }
                    }
                    assert(self.well_formed());
                    let after = before@.insert(mac, incoming);
                    assert forall|m: MacAddress| #[trigger]
                        self@.contains_key(m) == after.contains_key(m) && (self@.contains_key(m)
                            ==> self@[m] == after[m]) by {
                        if m == mac {
                            self.row_is_viewed(n);
                        } else {
                            if before@.contains_key(m) {
                                let k = choose|k: int| before.holds_at(k, m);
                                assert(self.holds_at(k, m));
                                self.row_is_viewed(k);
                                before.row_is_viewed(k);
                            }
                            if self@.contains_key(m) {
                                let k = choose|k: int| self.holds_at(k, m);
                                assert(k != n);
                                assert(before.holds_at(k, m));
                                self.row_is_viewed(k);
                                before.row_is_viewed(k);
                            }
                        }
                    }
                    assert(self@ =~= after);
                }
            },
        }
    }

    /// All rows, the most recently seen first: each row of the table once,
    /// and nothing else.
    pub fn get_all_assets(&self) -> (all: Vec<Asset>)
        requires
            self.well_formed(),
        ensures
            spec_is_latest_first(all@),
            spec_has_distinct_hosts(all@),
            forall|i: int|
                0 <= i < all@.len() ==> self@.contains_key((#[trigger] all@[i]).mac_address)
                    && self@[all@[i].mac_address] == all@[i]@,
            forall|mac: MacAddress| #[trigger]
                self@.contains_key(mac) ==> exists|i: int|
                    0 <= i < all@.len() && (#[trigger] all@[i]).mac_address == mac,
    {
        let mut keys: Vec<SortKey> = Vec::new();
        let mut n: usize = 0;
        while n < self.rows.len()
            invariant
                n <= self.rows@.len(),
                keys@.len() == n,
                forall|i: int|
                    0 <= i < n ==> (#[trigger] keys@[i]) == spec_recency_key(
                        self.rows@[i].last_seen_at,
                    ),
            decreases self.rows@.len() - n,
        {
            keys.push(recency_key(self.rows[n].last_seen_at));
            n = n + 1;
        }
        let order = sorted_order(&keys);
        let mut all: Vec<Asset> = Vec::new();
        let mut j: usize = 0;
        while j < order.len()
            invariant
                j <= order@.len(),
                all@.len() == j,
                spec_is_permutation(order@, self.rows@.len() as int),
                forall|i: int| 0 <= i < j ==> (#[trigger] all@[i]) == self.rows@[order@[i] as int],
            decreases order@.len() - j,
        {
            all.push(self.rows[order[j]].duplicate());
            j = j + 1;
        }
        proof {
            assert forall|a: int, b: int| 0 <= a < b < all@.len() implies (
            #[trigger] all@[a]).last_seen_at.micros >= (#[trigger] all@[b]).last_seen_at.micros by {
                assert(keys@[order@[a] as int].spec_le(keys@[order@[b] as int]));
            }
            assert forall|a: int, b: int| 0 <= a < b < all@.len() implies (
            #[trigger] all@[a]).mac_address != (#[trigger] all@[b]).mac_address by {
                assert(order@[a] != order@[b]);
            }
            assert forall|i: int| 0 <= i < all@.len() implies self@.contains_key(
                (#[trigger] all@[i]).mac_address,
            ) && self@[all@[i].mac_address] == all@[i]@ by {
                self.row_is_viewed(order@[i] as int);
            }
            assert forall|mac: MacAddress| #[trigger] self@.contains_key(mac) implies exists|i: int|
                0 <= i < all@.len() && (#[trigger] all@[i]).mac_address == mac by {
                let k = choose|k: int| self.holds_at(k, mac);
                assert(order@.contains(k as usize));
                let i = choose|i: int| 0 <= i < order@.len() && order@[i] == k as usize;
                assert(all@[i].mac_address == mac);
            }
        }
        all
    }

    /// Empties the table.
    pub fn reset(&mut self)
        ensures
            final(self).well_formed(),
            final(self)@ == Map::<MacAddress, AssetView>::empty(),
    {
        self.rows.clear();
        assert(self@ =~= Map::<MacAddress, AssetView>::empty());
    }
}

} // verus!
