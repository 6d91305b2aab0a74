//! The capture worker: what one frame adds to the inventory, and how the
//! capture loop goes on.

use crate::clock::now;
use crate::model::{
    opt_asset, opt_text, spec_is_private_v4, spec_observed, Asset, AssetView, DiscoveryRecord,
    IpAddress, MacAddress, Timestamp,
};
use crate::parser::{extract_hostname, opt_record, parse, spec_hostname, spec_parse};
use crate::vendor::{load_registry, lookup_company, oui_companies};
use mac_oui::Oui;
use vstd::prelude::*;

verus! {

/// How many bytes of each frame are captured: the headers suffice.
pub const SNAPLEN: i32 = 1024;

/// The size of the kernel's capture buffer: two mebibytes.
pub const CAPTURE_BUFFER_BYTES: i32 = 2_097_152;

/// How many observations the channel to the aggregator holds.
pub const CHANNEL_CAPACITY: usize = 1000;

/// The capture filter: the traffic that the discovery rules read.
pub fn capture_filter() -> (filter: &'static str)
    ensures
        filter@
            == "arp or (udp port 67 or port 68 or port 53 or port 5353 or port 5355 or port 137) or (icmp6 and (ip6[40] == 134 or ip6[40] == 135 or ip6[40] == 136)) or ether proto 0x88cc or ether proto 0x2000"@,
{
    "arp or (udp port 67 or port 68 or port 53 or port 5353 or port 5355 or port 137) or (icmp6 and (ip6[40] == 134 or ip6[40] == 135 or ip6[40] == 136)) or ether proto 0x88cc or ether proto 0x2000"
}

/// The vendor that a registry names for an address: the company found for
/// the full address, else the company found for its vendor prefix, else
/// none. Without a registry there is never a vendor.
pub open spec fn spec_vendor(registry: Option<Oui>, mac: MacAddress) -> Option<Seq<char>> {
    match registry {
        Some(db) => {
            let companies = oui_companies(db);
            if companies.contains_key(mac.spec_text()) {
                Some(companies[mac.spec_text()])
            } else if companies.contains_key(mac.spec_oui_text()) {
                Some(companies[mac.spec_oui_text()])
            } else {
                None
            }
        },
        None => None,
    }
}

/// The asset that a frame seen at `observed_at` yields under a registry.
pub open spec fn spec_observe(registry: Option<Oui>, frame: Seq<u8>, observed_at: Timestamp) -> Option<
    AssetView,
> {
    match spec_parse(frame) {
        Some(record) => Some(spec_observed(record, spec_vendor(registry, record.mac), observed_at)),
        None => None,
    }
}

/// The capture worker of one interface: it decodes frames and names the
/// vendor of each sender.
pub struct Sniffer {
    interface: String,
    oui_db: Option<Oui>,
}

impl Sniffer {
    /// The name of the interface that the worker captures on.
    pub closed spec fn spec_interface(&self) -> Seq<char> {
        self.interface@
    }

    /// The vendor registry of the worker, if it could be loaded.
    pub closed spec fn registry(&self) -> Option<Oui> {
        self.oui_db
    }

    /// A worker for the named interface. A registry that fails to load
    /// leaves the worker without vendors, and is no error.
    pub fn new(interface: String) -> (sniffer: Sniffer)
        ensures
            sniffer.spec_interface() == interface@,
    {
        Sniffer { interface, oui_db: load_registry() }
    }

    /// The name of the interface that the worker captures on.
    pub fn interface(&self) -> (name: &String)
        ensures
            name@ == self.spec_interface(),
    {
        &self.interface
    }

    /// Whether an IPv4 address lies in 10/8, 172.16/12, 192.168/16 or
    /// 169.254/16.
    pub fn is_private_ip(ip: [u8; 4]) -> (r: bool)
        ensures
            r == spec_is_private_v4(ip),
    {
        IpAddress::V4(ip).is_private()
    }

    /// The manufacturer of the interface with the given address.
    pub fn get_vendor(&self, mac: &MacAddress) -> (vendor: Option<String>)
        ensures
            opt_text(vendor) == spec_vendor(self.registry(), *mac),
    {
        match &self.oui_db {
            Some(db) => {
                let full = mac.to_text();
                match lookup_company(db, full.as_str()) {
                    Some(name) => Some(name),
                    None => {
                        let prefix = mac.oui_text();
                        lookup_company(db, prefix.as_str())
                    },
                }
            },
            None => None,
        }
    }

    /// Decodes one raw frame into at most one discovery record.
    pub fn process_packet(&self, data: &[u8]) -> (record: Option<DiscoveryRecord>)
        ensures
            opt_record(record) == spec_parse(data@),
    {
        parse(data)
    }

    /// The host name that a DNS-like payload starts its question with.
    pub fn extract_hostname_from_dns(&self, payload: &[u8]) -> (name: Option<String>)
        ensures
            opt_text(name) == spec_hostname(payload@),
    {
        extract_hostname(payload)
    }

    /// The asset that a frame seen at `observed_at` yields: its record,
    /// with the vendor of the sender, first and last seen at that time.
    pub fn observe_at(&self, frame: &[u8], observed_at: Timestamp) -> (asset: Option<Asset>)
        ensures
            opt_asset(asset) == spec_observe(self.registry(), frame@, observed_at),
    {
        match parse(frame) {
            Some(record) => {
                let vendor = self.get_vendor(&record.mac);
                Some(Asset::observed(record, vendor, observed_at))
            },
            None => None,
        }
    }

    /// The asset that a frame yields now. Whatever the clock says, the
    /// asset is the one that the frame yields at the time it carries.
    pub fn observe(&self, frame: &[u8]) -> (asset: Option<Asset>)
        ensures
            asset is Some <==> spec_parse(frame@) is Some,
            asset matches Some(a) ==> Some(a@) == spec_observe(
                self.registry(),
                frame@,
                a.first_seen_at,
            ),
    {
        self.observe_at(frame, now())
    }
}

/// What can happen in one turn of the capture loop.
#[derive(Clone, Copy, Debug, PartialEq, Eq, Structural)]
pub enum WorkerEvent {
    /// No frame arrived within the read timeout.
    Timeout,
    /// The capture handle reported any other error.
    CaptureFailed,
    /// A frame arrived and yielded no record.
    NoRecord,
    /// A record was handed to the channel.
    Sent,
    /// The channel was full: the record is lost.
    ChannelFull,
    /// The channel is closed.
    ChannelClosed,
}

/// How the capture loop goes on after an event.
#[derive(Clone, Copy, Debug, PartialEq, Eq, Structural)]
pub enum WorkerStep {
    /// Read the next frame.
    Continue,
    /// Warn that a record was dropped, then read the next frame.
    WarnAndContinue,
    /// Leave the loop.
    Stop,
}

/// How the capture loop goes on after an event: a full channel costs the
/// record and a warning, a closed channel and a failed capture end the
/// worker, and everything else lets it read on.
pub open spec fn spec_next_step(event: WorkerEvent) -> WorkerStep {
    match event {
        WorkerEvent::Timeout => WorkerStep::Continue,
        WorkerEvent::CaptureFailed => WorkerStep::Stop,
        WorkerEvent::NoRecord => WorkerStep::Continue,
        WorkerEvent::Sent => WorkerStep::Continue,
        WorkerEvent::ChannelFull => WorkerStep::WarnAndContinue,
        WorkerEvent::ChannelClosed => WorkerStep::Stop,
    }
}

/// How the capture loop goes on after an event.
pub fn next_step(event: WorkerEvent) -> (step: WorkerStep)
    ensures
        step == spec_next_step(event),
{
    match event {
        WorkerEvent::Timeout => WorkerStep::Continue,
        WorkerEvent::CaptureFailed => WorkerStep::Stop,
        WorkerEvent::NoRecord => WorkerStep::Continue,
        WorkerEvent::Sent => WorkerStep::Continue,
        WorkerEvent::ChannelFull => WorkerStep::WarnAndContinue,
        WorkerEvent::ChannelClosed => WorkerStep::Stop,
    }
}

} // verus!
