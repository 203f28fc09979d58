//! Where the header fields that the dispatcher reads sit in the bytes of a
//! packet, and which bytes each protocol hands on to the next layer.

use vstd::prelude::*;

verus! {

/// Bytes of an Ethernet II header: two hardware addresses and the ethertype.
pub const ETHERNET_HEADER_LEN: usize = 14;

/// Bytes of an IPv4 header without options.
pub const IPV4_HEADER_LEN: usize = 20;

/// Bytes of the fixed IPv6 header.
pub const IPV6_HEADER_LEN: usize = 40;

/// Bytes of a TCP header without options.
pub const TCP_HEADER_LEN: usize = 20;

/// Bytes of a UDP header.
pub const UDP_HEADER_LEN: usize = 8;

/// Ethertype of an IPv4 payload.
pub const ETHERTYPE_IPV4: u16 = 0x0800;

/// Ethertype of an IPv6 payload.
pub const ETHERTYPE_IPV6: u16 = 0x86DD;

/// IP protocol number of TCP.
pub const PROTOCOL_TCP: u8 = 6;

/// IP protocol number of UDP.
pub const PROTOCOL_UDP: u8 = 17;

/// The 16-bit number whose big-endian encoding is `hi`, `lo`.
pub open spec fn be16(hi: u8, lo: u8) -> int {
    hi as int * 256 + lo as int
}

/// The bytes of `bytes` from `start` up to `end`; nothing when `bytes` holds no
/// byte past `start`.
pub open spec fn window(bytes: Seq<u8>, start: int, end: int) -> Seq<u8> {
    if bytes.len() <= start {
        Seq::empty()
    } else {
        bytes.subrange(start, end)
    }
}

/// The smaller of two numbers.
pub open spec fn least(a: int, b: int) -> int {
    if a <= b {
        a
    } else {
        b
    }
}

/// `a - b`, or zero where that would be negative.
pub open spec fn minus_or_zero(a: int, b: int) -> int {
    if a >= b {
        a - b
    } else {
        0
    }
}

/// The ethertype of an Ethernet frame.
pub open spec fn ethertype(frame: Seq<u8>) -> int {
    be16(frame[12], frame[13])
}

/// What an Ethernet frame carries: everything after its header.
pub open spec fn ethernet_payload(frame: Seq<u8>) -> Seq<u8> {
    window(frame, ETHERNET_HEADER_LEN as int, frame.len() as int)
}

/// The header length that an IPv4 packet declares, in bytes.
pub open spec fn ipv4_declared_header_len(packet: Seq<u8>) -> int {
    (packet[0] % 16) * 4
}

/// The total length that an IPv4 packet declares, in bytes.
pub open spec fn ipv4_total_len(packet: Seq<u8>) -> int {
    be16(packet[2], packet[3])
}

/// The protocol number of what an IPv4 packet carries.
pub open spec fn ipv4_protocol(packet: Seq<u8>) -> u8 {
    packet[9]
}

/// The four octets of an IPv4 packet's source address.
pub open spec fn ipv4_source(packet: Seq<u8>) -> Seq<u8> {
    packet.subrange(12, 16)
}

/// The four octets of an IPv4 packet's destination address.
pub open spec fn ipv4_destination(packet: Seq<u8>) -> Seq<u8> {
    packet.subrange(16, 20)
}

/// Where the payload of an IPv4 packet starts: after the options, which take
/// what the declared header length has beyond the fixed header.
pub open spec fn ipv4_payload_start(packet: Seq<u8>) -> int {
    IPV4_HEADER_LEN + minus_or_zero(ipv4_declared_header_len(packet), IPV4_HEADER_LEN as int)
}

/// Where the payload of an IPv4 packet ends: where the declared total length
/// puts it, or where the bytes run out.
pub open spec fn ipv4_payload_end(packet: Seq<u8>) -> int {
    least(
        ipv4_payload_start(packet) + minus_or_zero(
            ipv4_total_len(packet),
            ipv4_declared_header_len(packet),
        ),
        packet.len() as int,
    )
}

/// What an IPv4 packet carries.
pub open spec fn ipv4_payload(packet: Seq<u8>) -> Seq<u8> {
    window(packet, ipv4_payload_start(packet), ipv4_payload_end(packet))
}

/// The payload length that an IPv6 packet declares, in bytes.
pub open spec fn ipv6_declared_payload_len(packet: Seq<u8>) -> int {
    be16(packet[4], packet[5])
}

/// The number of the header that follows the fixed IPv6 header.
pub open spec fn ipv6_next_header(packet: Seq<u8>) -> u8 {
    packet[6]
}

/// The sixteen octets of an IPv6 packet's source address.
pub open spec fn ipv6_source(packet: Seq<u8>) -> Seq<u8> {
    packet.subrange(8, 24)
}

/// The sixteen octets of an IPv6 packet's destination address.
pub open spec fn ipv6_destination(packet: Seq<u8>) -> Seq<u8> {
    packet.subrange(24, 40)
}

/// What an IPv6 packet carries: as many bytes after the fixed header as it
/// declares, or as there are.
pub open spec fn ipv6_payload(packet: Seq<u8>) -> Seq<u8> {
    window(
        packet,
        IPV6_HEADER_LEN as int,
        least(IPV6_HEADER_LEN + ipv6_declared_payload_len(packet), packet.len() as int),
    )
}

/// The port that a TCP segment comes from.
pub open spec fn tcp_source(segment: Seq<u8>) -> int {
    be16(segment[0], segment[1])
}

/// The port that a TCP segment goes to.
pub open spec fn tcp_destination(segment: Seq<u8>) -> int {
    be16(segment[2], segment[3])
}

/// The data offset that a TCP segment declares, in 32-bit words.
pub open spec fn tcp_data_offset(segment: Seq<u8>) -> int {
    segment[12] as int / 16
}

/// Where the payload of a TCP segment starts: after the fixed header, or
/// after the options where the data offset declares any.
pub open spec fn tcp_payload_start(segment: Seq<u8>) -> int {
    if tcp_data_offset(segment) > 5 {
        tcp_data_offset(segment) * 4
    } else {
        TCP_HEADER_LEN as int
    }
}

/// What a TCP segment carries.
pub open spec fn tcp_payload(segment: Seq<u8>) -> Seq<u8> {
    window(segment, tcp_payload_start(segment), segment.len() as int)
}

/// The port that a UDP datagram comes from.
pub open spec fn udp_source(datagram: Seq<u8>) -> int {
    be16(datagram[0], datagram[1])
}

/// The port that a UDP datagram goes to.
pub open spec fn udp_destination(datagram: Seq<u8>) -> int {
    be16(datagram[2], datagram[3])
}

/// What a UDP datagram carries: everything after its header.
pub open spec fn udp_payload(datagram: Seq<u8>) -> Seq<u8> {
    window(datagram, UDP_HEADER_LEN as int, datagram.len() as int)
}

} // verus!
