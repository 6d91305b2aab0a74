//! The throttled aggregator: one cache entry per host decides whether an
//! observation is written to the inventory or dropped.

use crate::clock::now;
use crate::model::{
    clone_text, key_is_injective, opt_asset, opt_text, Asset, AssetView, DiscoveryMethod, IpAddress,
    MacAddress, Timestamp,
};
use dashmap::DashMap;
use vstd::prelude::*;

verus! {

/// The heartbeat window: an unchanged host is written again only after
/// more than ten seconds.
pub const HEARTBEAT_MICROS: i64 = 10_000_000;

/// `dashmap::DashMap`, the concurrent map that holds the cache: carried as
/// it is, and read and changed only through the three calls below.
#[verifier::external_type_specification]
#[verifier::external_body]
#[verifier::reject_recursive_types(K)]
#[verifier::reject_recursive_types(V)]
#[verifier::reject_recursive_types(S)]
pub struct ExDashMap<K, V, S>(DashMap<K, V, S>);

/// What the aggregator remembers of the last write for one host.
#[derive(Clone, Debug)]
pub struct ThrottleEntry {
    pub last_sync_at: Timestamp,
    pub last_ip: IpAddress,
    pub last_hostname: Option<String>,
    pub last_method: DiscoveryMethod,
}

/// A cache entry as a mathematical value.
pub struct ThrottleEntryView {
    pub last_sync_at: Timestamp,
    pub last_ip: IpAddress,
    pub last_hostname: Option<Seq<char>>,
    pub last_method: DiscoveryMethod,
}

impl View for ThrottleEntry {
    type V = ThrottleEntryView;

    open spec fn view(&self) -> ThrottleEntryView {
        ThrottleEntryView {
            last_sync_at: self.last_sync_at,
            last_ip: self.last_ip,
            last_hostname: opt_text(self.last_hostname),
            last_method: self.last_method,
        }
    }
}

/// A cache entry as a mathematical value, where there is one.
pub open spec fn opt_entry(e: Option<ThrottleEntry>) -> Option<ThrottleEntryView> {
    match e {
        Some(entry) => Some(entry@),
        None => None,
    }
}

/// The entry of a host in a cache, where there is one.
pub open spec fn spec_entry_of(cache: Map<MacAddress, ThrottleEntryView>, mac: MacAddress) -> Option<
    ThrottleEntryView,
> {
    if cache.contains_key(mac) {
        Some(cache[mac])
    } else {
        None
    }
}

/// Whether an observation must be written: the host is new, its address or
/// method changed, it brings the first host name, or the last write is
/// more than the heartbeat window ago.
pub open spec fn spec_should_sync(prev: Option<ThrottleEntryView>, asset: AssetView, now: Timestamp) -> bool {
    match prev {
        None => true,
        Some(p) => {
            ||| p.last_ip != asset.ip_address
            ||| (p.last_hostname is None && asset.hostname is Some)
            ||| p.last_method != asset.discovery_method
            ||| now.micros - p.last_sync_at.micros > HEARTBEAT_MICROS
        },
    }
}

/// The host name that is written: the observed one, else the remembered
/// one.
pub open spec fn spec_effective_hostname(prev: Option<ThrottleEntryView>, asset: AssetView) -> Option<
    Seq<char>,
> {
    match asset.hostname {
        Some(name) => Some(name),
        None => match prev {
            Some(p) => p.last_hostname,
            None => None,
        },
    }
}

/// The asset that is written for an observation: the observation itself,
/// with the effective host name.
pub open spec fn spec_synced_asset(prev: Option<ThrottleEntryView>, asset: AssetView) -> AssetView {
    AssetView { hostname: spec_effective_hostname(prev, asset), ..asset }
}

/// The cache entry that a write leaves behind.
pub open spec fn spec_synced_entry(prev: Option<ThrottleEntryView>, asset: AssetView, now: Timestamp) -> ThrottleEntryView {
    ThrottleEntryView {
        last_sync_at: now,
        last_ip: asset.ip_address,
        last_hostname: spec_effective_hostname(prev, asset),
        last_method: asset.discovery_method,
    }
}

/// What the aggregator does with an observation, given the entry of its
/// host: nothing, or a write together with the new entry.
pub open spec fn spec_decide(prev: Option<ThrottleEntryView>, asset: AssetView, now: Timestamp) -> Option<
    (AssetView, ThrottleEntryView),
> {
    if spec_should_sync(prev, asset, now) {
        Some((spec_synced_asset(prev, asset), spec_synced_entry(prev, asset, now)))
    } else {
        None
    }
}

/// The cache after an observation.
pub open spec fn spec_cache_after(
    cache: Map<MacAddress, ThrottleEntryView>,
    asset: AssetView,
    now: Timestamp,
) -> Map<MacAddress, ThrottleEntryView> {
    let prev = spec_entry_of(cache, asset.mac_address);
    if spec_should_sync(prev, asset, now) {
        cache.insert(asset.mac_address, spec_synced_entry(prev, asset, now))
    } else {
        cache
    }
}

/// The write that an observation causes, where it causes one.
pub open spec fn spec_write_of(
    cache: Map<MacAddress, ThrottleEntryView>,
    asset: AssetView,
    now: Timestamp,
) -> Option<AssetView> {
    let prev = spec_entry_of(cache, asset.mac_address);
    if spec_should_sync(prev, asset, now) {
        Some(spec_synced_asset(prev, asset))
    } else {
        None
    }
}

/// The writes, in order, that a run of observations causes from a cache.
pub open spec fn spec_writes(
    cache: Map<MacAddress, ThrottleEntryView>,
    observations: Seq<(AssetView, Timestamp)>,
) -> Seq<AssetView>
    decreases observations.len(),
{
    if observations.len() == 0 {
        Seq::empty()
    } else {
        let (asset, now) = observations[0];
        let rest = spec_writes(spec_cache_after(cache, asset, now), observations.drop_first());
        match spec_write_of(cache, asset, now) {
            Some(written) => seq![written] + rest,
            None => rest,
        }
    }
}

/// An asset and a cache entry as mathematical values, where there are any.
pub open spec fn opt_decision(d: Option<(Asset, ThrottleEntry)>) -> Option<
    (AssetView, ThrottleEntryView),
> {
    match d {
        Some((asset, entry)) => Some((asset@, entry@)),
        None => None,
    }
}

fn exceeds_heartbeat(now: Timestamp, last: Timestamp) -> (r: bool)
    ensures
        r == (now.micros - last.micros > HEARTBEAT_MICROS),
{
    let elapsed: i128 = now.micros as i128 - last.micros as i128;
    elapsed > HEARTBEAT_MICROS as i128
}

/// Decides what to do with an observation made at `now`, given the cache
/// entry of its host.
pub fn decide(prev: Option<ThrottleEntry>, asset: Asset, now: Timestamp) -> (decision: Option<
    (Asset, ThrottleEntry),
>)
    ensures
        opt_decision(decision) == spec_decide(opt_entry(prev), asset@, now),
{
    let should_sync = match &prev {
        None => true,
        Some(p) => {
            !p.last_ip.same(&asset.ip_address) || (p.last_hostname.is_none()
                && asset.hostname.is_some()) || p.last_method != asset.discovery_method
                || exceeds_heartbeat(now, p.last_sync_at)
        },
    };
    if !should_sync {
        return None;
    }
    let hostname = match asset.hostname {
        Some(name) => Some(name),
        None => match prev {
            Some(p) => p.last_hostname,
            None => None,
        },
    };
    let entry = ThrottleEntry {
        last_sync_at: now,
        last_ip: asset.ip_address,
        last_hostname: clone_text(&hostname),
        last_method: asset.discovery_method,
    };
    let synced = Asset {
        mac_address: asset.mac_address,
        ip_address: asset.ip_address,
        hostname,
        vendor: asset.vendor,
        vlan_id: asset.vlan_id,
        discovery_method: asset.discovery_method,
        first_seen_at: asset.first_seen_at,
        last_seen_at: asset.last_seen_at,
    };
    Some((synced, entry))
}

/// The entries of a cache, by the integer key of the host's address.
pub uninterp spec fn cache_entries(cache: DashMap<u64, ThrottleEntry>) -> Map<u64, ThrottleEntry>;

/// `DashMap::new`: a map without entries.
#[verifier::external_body]
pub(crate) fn cache_new() -> (fresh: DashMap<u64, ThrottleEntry>)
    ensures
        (cache_entries(fresh) == Map::<u64, ThrottleEntry>::empty()),
{
    DashMap::new()
}

/// `DashMap::get`, followed by a copy of the entry found: the entry under
/// the key, or nothing where the map holds none.
#[verifier::external_body]
pub(crate) fn cache_get(cache: &DashMap<u64, ThrottleEntry>, key: u64) -> (entry: Option<
    ThrottleEntry,
>)
    ensures
        match entry {
            Some(e) => cache_entries(*cache).contains_key(key) && cache_entries(*cache)[key] == e,
            None => !cache_entries(*cache).contains_key(key),
        },
{
    cache.get(&key).map(|e| e.value().clone())
}

/// `DashMap::insert`: afterwards the map holds the entry under the key,
/// and every other key as before.
#[verifier::external_body]
pub(crate) fn cache_insert(cache: &mut DashMap<u64, ThrottleEntry>, key: u64, entry: ThrottleEntry)
    ensures
        cache_entries(*final(cache)) == cache_entries(*old(cache)).insert(key, entry),
{
    cache.insert(key, entry);
}

/// The aggregator: the single consumer of observations, which bounds the
/// writes per host and carries the host name forward.
pub struct ThrottleAggregator {
    cache: DashMap<u64, ThrottleEntry>,
}

impl View for ThrottleAggregator {
    type V = Map<MacAddress, ThrottleEntryView>;

    /// The cache, by hardware address.
    closed spec fn view(&self) -> Map<MacAddress, ThrottleEntryView> {
        Map::new(
            |mac: MacAddress| cache_entries(self.cache).contains_key(mac.spec_key() as u64),
            |mac: MacAddress| cache_entries(self.cache)[mac.spec_key() as u64]@,
        )
    }
}

impl ThrottleAggregator {
    /// An aggregator that remembers no host.
    pub fn new() -> (aggregator: ThrottleAggregator)
        ensures
            aggregator@ == Map::<MacAddress, ThrottleEntryView>::empty(),
    {
        let aggregator = ThrottleAggregator { cache: cache_new() };
        assert(aggregator@ =~= Map::<MacAddress, ThrottleEntryView>::empty());
        aggregator
    }

    /// What the aggregator remembers of a host.
    pub fn entry(&self, mac: &MacAddress) -> (entry: Option<ThrottleEntry>)
        ensures
            opt_entry(entry) == spec_entry_of(self@, *mac),
    {
        cache_get(&self.cache, mac.key())
    }

    /// Takes in an observation made at `now`. Returns the asset to write
    /// to the inventory, or nothing where the observation is dropped; the
    /// cache changes only with a write.
    pub fn process(&mut self, asset: Asset, now: Timestamp) -> (written: Option<Asset>)
        ensures
            opt_asset(written) == spec_write_of(old(self)@, asset@, now),
            final(self)@ == spec_cache_after(old(self)@, asset@, now),
    {
        let mac = asset.mac_address;
        let key = mac.key();
        let prev = cache_get(&self.cache, key);
        let ghost before = self@;
        match decide(prev, asset, now) {
            Some((synced, entry)) => {
                cache_insert(&mut self.cache, key, entry);
                proof {
                    let after = before.insert(mac, entry@);
                    assert forall|m: MacAddress| #[trigger]
                        self@.contains_key(m) == after.contains_key(m) && (self@.contains_key(m)
                            ==> self@[m] == after[m]) by {
                        if m != mac && m.spec_key() == mac.spec_key() {
                            key_is_injective(m, mac);
                        }
                    }
                    assert(self@ =~= after);
                }
                Some(synced)
            },
            None => None,
        }
    }

    /// Takes in an observation made now. Whatever the clock says: a host
    /// that is new, changed its address or method, or brings its first
    /// host name is written; a dropped observation leaves the cache as it
    /// was; and a written one is written as of some time.
    pub fn handle(&mut self, asset: Asset) -> (written: Option<Asset>)
        ensures
            spec_is_change(spec_entry_of(old(self)@, asset@.mac_address), asset@) ==> written
                is Some,
            written is None ==> final(self)@ == old(self)@,
            written is Some ==> exists|t: Timestamp|
                opt_asset(written) == spec_write_of(old(self)@, asset@, t) && final(self)@
                    == #[trigger] spec_cache_after(old(self)@, asset@, t),
    {
        let t = now();
        let written = self.process(asset, t);
        written
    }
}

/// Whether an observation differs from what is remembered of its host in
/// a way that does not depend on time: the host is new, its address or
/// method changed, or it brings the first host name.
pub open spec fn spec_is_change(prev: Option<ThrottleEntryView>, asset: AssetView) -> bool {
    match prev {
        None => true,
        Some(p) => {
            ||| p.last_ip != asset.ip_address
            ||| (p.last_hostname is None && asset.hostname is Some)
            ||| p.last_method != asset.discovery_method
        },
    }
}

/// A change is written at once, whatever the time: a new host, a new
/// address, a new method and a first host name each cause a write.
pub proof fn change_is_written(
    cache: Map<MacAddress, ThrottleEntryView>,
    asset: AssetView,
    now: Timestamp,
)
    requires
        spec_is_change(spec_entry_of(cache, asset.mac_address), asset),
    ensures
        spec_write_of(cache, asset, now) is Some,
        spec_writes(cache, seq![(asset, now)]).len() == 1,
{
    let observations = seq![(asset, now)];
    assert(observations.drop_first() =~= Seq::<(AssetView, Timestamp)>::empty());
    assert(spec_writes(spec_cache_after(cache, asset, now), observations.drop_first()).len() == 0);
}

/// An observation that was written is not written again within the
/// heartbeat window: of two equal observations no more than ten seconds
/// apart, the first of which is written, exactly one is written.
pub proof fn repeat_within_heartbeat_is_written_once(
    cache: Map<MacAddress, ThrottleEntryView>,
    asset: AssetView,
    first: Timestamp,
    second: Timestamp,
)
    requires
        spec_write_of(cache, asset, first) is Some,
        second.micros - first.micros <= HEARTBEAT_MICROS,
    ensures
        spec_write_of(spec_cache_after(cache, asset, first), asset, second) is None,
        spec_cache_after(spec_cache_after(cache, asset, first), asset, second) == spec_cache_after(
            cache,
            asset,
            first,
        ),
        spec_writes(cache, seq![(asset, first), (asset, second)]).len() == 1,
{
    let observations = seq![(asset, first), (asset, second)];
    let after = spec_cache_after(cache, asset, first);
    let tail = observations.drop_first();
    assert(tail =~= seq![(asset, second)]);
    assert(tail.drop_first() =~= Seq::<(AssetView, Timestamp)>::empty());
    assert(spec_writes(spec_cache_after(after, asset, second), tail.drop_first()).len() == 0);
    assert(spec_writes(after, tail).len() == 0);
}

} // verus!
