//! Passive host discovery for mirror ports, with machine-checked contracts.
//!
//! A sensor built on this library watches broadcast and multicast traffic
//! and keeps an inventory of the hosts it sees, keyed by hardware address.
//! It never sends a frame.
//!
//! * [`parser`] decodes one raw Ethernet frame into at most one discovery
//!   record, on top of the headers that [`headers`] reads with `etherparse`.
//! * [`sniffer`] is the capture worker's logic: record, vendor (from
//!   [`vendor`]) and time of observation make an asset.
//! * [`throttle`] is the aggregator that decides, host by host, which
//!   observations are written and which are dropped.
//! * [`inventory`] holds the rules of the store: how a write merges with
//!   the row of its host, and what runs of writes leave behind.
//! * [`listing`] and [`order`] put the inventory in order for display.
//! * [`model`], [`text`] and [`config`] are the vocabulary: addresses,
//!   methods, assets, their textual forms, and the settings of a run.

pub mod clock;
pub mod config;
pub mod headers;
pub mod inventory;
pub mod listing;
pub mod model;
pub mod order;
pub mod parser;
pub mod sniffer;
pub mod text;
pub mod throttle;
pub mod vendor;
