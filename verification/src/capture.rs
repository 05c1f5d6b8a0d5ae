//! The decisions of the packet-capture collector.
//!
//! Opening the device and walking the raw bytes belong to the capture
//! runtime outside the library; it hands the decoded IPv4 header fields in
//! as plain values. The library owns the classification: which transport
//! headers become traffic events, how a destination port names a protocol,
//! and what lands in the metadata.

use vstd::prelude::*;

use crate::events::{Event, EventV, Protocol, ProtocolV, TrafficEvent};
use crate::json::{bytes_chars, dec_u64, u64_string};

verus! {

/// The transport header of a captured IPv4 packet, as plain values.
#[derive(Debug, Clone, Copy, PartialEq, Eq, Structural)]
pub enum Ipv4Transport {
    Tcp { src_port: u16, dst_port: u16, flags: u8 },
    Udp { src_port: u16, dst_port: u16 },
    Icmp,
    /// Any other IP protocol number; such packets are not collected.
    Other(u8),
}

/// The application protocol a TCP destination port suggests.
pub open spec fn protocol_for_port(port: u16) -> ProtocolV {
    if port == 80 {
        ProtocolV::HTTP
    } else if port == 443 {
        ProtocolV::HTTPS
    } else {
        ProtocolV::TCP
    }
}

pub fn identify_protocol_by_port(port: u16) -> (r: Protocol)
    ensures
        r.deep_view() == protocol_for_port(port),
{
    match port {
        80 => Protocol::HTTP,
        443 => Protocol::HTTPS,
        _ => Protocol::TCP,
    }
}

/// The traffic event one captured IPv4 packet becomes: TCP flows carry the
/// port-derived protocol and their flag bits in the metadata, UDP and ICMP
/// carry their own names, anything else is skipped.
pub open spec fn classified_packet(
    timestamp: i64,
    src_ip: Seq<char>,
    dst_ip: Seq<char>,
    transport: Ipv4Transport,
    total_length: u16,
) -> Option<EventV> {
    match transport {
        Ipv4Transport::Tcp { src_port, dst_port, flags } => Some(
            EventV::Traffic(
                crate::events::TrafficEventV {
                    timestamp,
                    protocol: protocol_for_port(dst_port),
                    src_ip,
                    dst_ip,
                    src_port,
                    dst_port,
                    bytes: total_length as u64,
                    packets: 1,
                    metadata: seq![("flags"@, bytes_chars(dec_u64(flags as nat)))],
                },
            ),
        ),
        Ipv4Transport::Udp { src_port, dst_port } => Some(
            EventV::Traffic(
                crate::events::TrafficEventV {
                    timestamp,
                    protocol: ProtocolV::UDP,
                    src_ip,
                    dst_ip,
                    src_port,
                    dst_port,
                    bytes: total_length as u64,
                    packets: 1,
                    metadata: Seq::empty(),
                },
            ),
        ),
        Ipv4Transport::Icmp => Some(
            EventV::Traffic(
                crate::events::TrafficEventV {
                    timestamp,
                    protocol: ProtocolV::ICMP,
                    src_ip,
                    dst_ip,
                    src_port: 0,
                    dst_port: 0,
                    bytes: total_length as u64,
                    packets: 1,
                    metadata: Seq::empty(),
                },
            ),
        ),
        Ipv4Transport::Other(_) => None,
    }
}

/// Classifies one captured IPv4 packet.
pub fn traffic_event_from_ipv4(
    timestamp: i64,
    src_ip: String,
    dst_ip: String,
    transport: Ipv4Transport,
    total_length: u16,
) -> (r: Option<Event>)
    ensures
        r.deep_view() == classified_packet(
            timestamp,
            src_ip@,
            dst_ip@,
            transport,
            total_length,
        ),
{
    match transport {
        Ipv4Transport::Tcp { src_port, dst_port, flags } => {
            let protocol = identify_protocol_by_port(dst_port);
            let mut metadata: Vec<(String, String)> = Vec::new();
            let key = String::new();
            let key = key.concat("flags");
            metadata.push((key, u64_string(flags as u64)));
            let e = Event::Traffic(
                TrafficEvent {
                    timestamp,
                    protocol,
                    src_ip,
                    dst_ip,
                    src_port,
                    dst_port,
                    bytes: total_length as u64,
                    packets: 1,
                    metadata,
                },
            );
            proof {
                assert(Seq::<char>::empty() + "flags"@ =~= "flags"@);
                assert(e.deep_view() =~= classified_packet(
                    timestamp,
                    src_ip@,
                    dst_ip@,
                    transport,
                    total_length,
                )->Some_0);
            }
            Some(e)
        },
        Ipv4Transport::Udp { src_port, dst_port } => {
            let e = Event::Traffic(
                TrafficEvent {
                    timestamp,
                    protocol: Protocol::UDP,
                    src_ip,
                    dst_ip,
                    src_port,
                    dst_port,
                    bytes: total_length as u64,
                    packets: 1,
                    metadata: Vec::new(),
                },
            );
            proof {
                assert(e.deep_view() =~= classified_packet(
                    timestamp,
                    src_ip@,
                    dst_ip@,
                    transport,
                    total_length,
                )->Some_0);
            }
            Some(e)
        },
        Ipv4Transport::Icmp => {
            let e = Event::Traffic(
                TrafficEvent {
                    timestamp,
                    protocol: Protocol::ICMP,
                    src_ip,
                    dst_ip,
                    src_port: 0,
                    dst_port: 0,
                    bytes: total_length as u64,
                    packets: 1,
                    metadata: Vec::new(),
                },
            );
            proof {
                assert(e.deep_view() =~= classified_packet(
                    timestamp,
                    src_ip@,
                    dst_ip@,
                    transport,
                    total_length,
                )->Some_0);
            }
            Some(e)
        },
        Ipv4Transport::Other(_) => None,
    }
}

} // verus!
