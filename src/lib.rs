//! Protocol codecs and the neighbor-discovery logic of a small IPv6 node on
//! an IEEE 802.15.4 radio.
//!
//! - `udp`: UDP packets and their checksum over the IPv6 pseudo-header
//! - `checksum`: the Internet checksum and big-endian fields
//! - `ipv6`, `ieee802154`, `iphc`, `icmpv6`: addresses, MAC headers,
//!   compressed IPv6 headers and ICMPv6 messages
//! - `cache`: the fixed-capacity neighbor cache
//! - `node`: what the node answers to one inbound frame
//! - `reply`: the bytes of the answers

use vstd::prelude::*;

pub mod cache;
pub mod checksum;
pub mod ieee802154;
pub mod icmpv6;
pub mod iphc;
pub mod ipv6;
pub mod node;
pub mod reply;
pub mod udp;
