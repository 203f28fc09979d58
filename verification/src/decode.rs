//! The calls into `pnet`'s packet decoders.
//!
//! Nothing in this file is proved. Each function makes one call into
//! `pnet::packet` and states what that call returns. The verifier takes
//! these statements on trust; everything outside this file is proved from
//! them.
//!
//! The statements follow the packet definitions of `pnet_packet`: the
//! structs `Ethernet`, `Ipv4`, `Ipv6`, `Tcp` and `Udp`, whose fields lie in
//! the bytes in the order of their declaration, most significant bit first
//! and numbers of several bytes big-endian. `new` and `payload` are what
//! `pnet_macros` writes for every such struct: `new` asks for as many bytes
//! as the fields before the payload take, and `payload` gives the bytes from
//! the end of those fields, and of the options where there are any, up to
//! the declared length or the end of the bytes.

use pnet::packet::ethernet::EthernetPacket;
use pnet::packet::ipv4::Ipv4Packet;
use pnet::packet::ipv6::Ipv6Packet;
use pnet::packet::tcp::TcpPacket;
use pnet::packet::udp::UdpPacket;
use pnet::packet::Packet;
use vstd::prelude::*;
use crate::layout::{
    ethernet_payload, ethertype, ipv4_destination, ipv4_payload, ipv4_protocol, ipv4_source,
    ipv6_destination, ipv6_next_header, ipv6_payload, ipv6_source, tcp_destination, tcp_payload,
    tcp_source, udp_destination, udp_payload, udp_source, ETHERNET_HEADER_LEN, IPV4_HEADER_LEN,
    IPV6_HEADER_LEN, TCP_HEADER_LEN, UDP_HEADER_LEN,
};

verus! {

/// `pnet::packet::ethernet::EthernetPacket`, a borrowed view of a byte slice.
#[verifier::external_type_specification]
#[verifier::external_body]
pub struct ExEthernetPacket<'a>(EthernetPacket<'a>);

/// `pnet::packet::ipv4::Ipv4Packet`, a borrowed view of a byte slice.
#[verifier::external_type_specification]
#[verifier::external_body]
pub struct ExIpv4Packet<'a>(Ipv4Packet<'a>);

/// `pnet::packet::ipv6::Ipv6Packet`, a borrowed view of a byte slice.
#[verifier::external_type_specification]
#[verifier::external_body]
pub struct ExIpv6Packet<'a>(Ipv6Packet<'a>);

/// `pnet::packet::tcp::TcpPacket`, a borrowed view of a byte slice.
#[verifier::external_type_specification]
#[verifier::external_body]
pub struct ExTcpPacket<'a>(TcpPacket<'a>);

/// `pnet::packet::udp::UdpPacket`, a borrowed view of a byte slice.
#[verifier::external_type_specification]
#[verifier::external_body]
pub struct ExUdpPacket<'a>(UdpPacket<'a>);

/// The bytes that an `EthernetPacket` was made over: what `Packet::packet` gives
/// for it.
pub uninterp spec fn ethernet_bytes(p: EthernetPacket) -> Seq<u8>;

/// The bytes that an `Ipv4Packet` was made over: what `Packet::packet` gives
/// for it.
pub uninterp spec fn ipv4_bytes(p: Ipv4Packet) -> Seq<u8>;

/// The bytes that an `Ipv6Packet` was made over: what `Packet::packet` gives
/// for it.
pub uninterp spec fn ipv6_bytes(p: Ipv6Packet) -> Seq<u8>;

/// The bytes that a `TcpPacket` was made over: what `Packet::packet` gives
/// for it.
pub uninterp spec fn tcp_bytes(p: TcpPacket) -> Seq<u8>;

/// The bytes that a `UdpPacket` was made over: what `Packet::packet` gives
/// for it.
pub uninterp spec fn udp_bytes(p: UdpPacket) -> Seq<u8>;

/// Calls `EthernetPacket::new`. It gives a packet exactly where `bytes` are
/// enough for the 14 bytes of an Ethernet header, and the packet is made
/// over `bytes`.
#[verifier::external_body]
pub(crate) fn ethernet_new<'a>(bytes: &'a [u8]) -> (r: Option<EthernetPacket<'a>>)
    ensures
        r.is_some() <==> bytes@.len() >= ETHERNET_HEADER_LEN,
        r matches Some(p) ==> ethernet_bytes(p) == bytes@,
{
    EthernetPacket::new(bytes)
}

/// Calls `EthernetPacket::get_ethertype`. The field is the big-endian number
/// in bytes 12 and 13.
#[verifier::external_body]
pub(crate) fn ethernet_ethertype(p: &EthernetPacket) -> (r: u16)
    ensures
        r == ethertype(ethernet_bytes(*p)),
{
    p.get_ethertype().0
}

/// Calls `Packet::payload` on an `EthernetPacket`. The payload is every byte
/// after the header.
#[verifier::external_body]
pub(crate) fn ethernet_payload_of<'p>(p: &'p EthernetPacket) -> (r: &'p [u8])
    ensures
        r@ == ethernet_payload(ethernet_bytes(*p)),
{
    p.payload()
}

/// Calls `Ipv4Packet::new`. It gives a packet exactly where `bytes` are
/// enough for the 20 bytes of an IPv4 header without options, and the packet
/// is made over `bytes`.
#[verifier::external_body]
pub(crate) fn ipv4_new<'a>(bytes: &'a [u8]) -> (r: Option<Ipv4Packet<'a>>)
    ensures
        r.is_some() <==> bytes@.len() >= IPV4_HEADER_LEN,
        r matches Some(p) ==> ipv4_bytes(p) == bytes@,
{
    Ipv4Packet::new(bytes)
}

/// Calls `Ipv4Packet::get_next_level_protocol`. The field is byte 9.
#[verifier::external_body]
pub(crate) fn ipv4_next_level_protocol(p: &Ipv4Packet) -> (r: u8)
    ensures
        r == ipv4_protocol(ipv4_bytes(*p)),
{
    p.get_next_level_protocol().0
}

/// Calls `Ipv4Packet::get_source`. The octets of the address are bytes 12
/// to 15.
#[verifier::external_body]
pub(crate) fn ipv4_source_octets(p: &Ipv4Packet) -> (r: [u8; 4])
    ensures
        r@ == ipv4_source(ipv4_bytes(*p)),
{
    p.get_source().octets()
}

/// Calls `Ipv4Packet::get_destination`. The octets of the address are bytes
/// 16 to 19.
#[verifier::external_body]
pub(crate) fn ipv4_destination_octets(p: &Ipv4Packet) -> (r: [u8; 4])
    ensures
        r@ == ipv4_destination(ipv4_bytes(*p)),
{
    p.get_destination().octets()
}

/// Calls `Packet::payload` on an `Ipv4Packet`. The payload starts after the
/// options, whose length is what the header-length field declares beyond 20
/// bytes. It is as long as the total-length field says beyond the declared
/// header, and ends with the bytes at the latest.
#[verifier::external_body]
pub(crate) fn ipv4_payload_of<'p>(p: &'p Ipv4Packet) -> (r: &'p [u8])
    ensures
        r@ == ipv4_payload(ipv4_bytes(*p)),
{
    p.payload()
}

/// Calls `Ipv6Packet::new`. It gives a packet exactly where `bytes` are
/// enough for the 40 bytes of the fixed IPv6 header, and the packet is made
/// over `bytes`.
#[verifier::external_body]
pub(crate) fn ipv6_new<'a>(bytes: &'a [u8]) -> (r: Option<Ipv6Packet<'a>>)
    ensures
        r.is_some() <==> bytes@.len() >= IPV6_HEADER_LEN,
        r matches Some(p) ==> ipv6_bytes(p) == bytes@,
{
    Ipv6Packet::new(bytes)
}

/// Calls `Ipv6Packet::get_next_header`. The field is byte 6.
#[verifier::external_body]
pub(crate) fn ipv6_next_header_of(p: &Ipv6Packet) -> (r: u8)
    ensures
        r == ipv6_next_header(ipv6_bytes(*p)),
{
    p.get_next_header().0
}

/// Calls `Ipv6Packet::get_source`. The octets of the address are bytes 8 to
/// 23.
#[verifier::external_body]
pub(crate) fn ipv6_source_octets(p: &Ipv6Packet) -> (r: [u8; 16])
    ensures
        r@ == ipv6_source(ipv6_bytes(*p)),
{
    p.get_source().octets()
}

/// Calls `Ipv6Packet::get_destination`. The octets of the address are bytes
/// 24 to 39.
#[verifier::external_body]
pub(crate) fn ipv6_destination_octets(p: &Ipv6Packet) -> (r: [u8; 16])
    ensures
        r@ == ipv6_destination(ipv6_bytes(*p)),
{
    p.get_destination().octets()
}

/// Calls `Packet::payload` on an `Ipv6Packet`. The payload starts after the
/// fixed header. It is as long as the payload-length field says, and ends
/// with the bytes at the latest.
#[verifier::external_body]
pub(crate) fn ipv6_payload_of<'p>(p: &'p Ipv6Packet) -> (r: &'p [u8])
    ensures
        r@ == ipv6_payload(ipv6_bytes(*p)),
{
    p.payload()
}

/// Calls `TcpPacket::new`. It gives a packet exactly where `bytes` are
/// enough for the 20 bytes of a TCP header without options, and the packet
/// is made over `bytes`.
#[verifier::external_body]
pub(crate) fn tcp_new<'a>(bytes: &'a [u8]) -> (r: Option<TcpPacket<'a>>)
    ensures
        r.is_some() <==> bytes@.len() >= TCP_HEADER_LEN,
        r matches Some(p) ==> tcp_bytes(p) == bytes@,
{
    TcpPacket::new(bytes)
}

/// Calls `TcpPacket::get_source`. The port is the big-endian number in
/// bytes 0 and 1.
#[verifier::external_body]
pub(crate) fn tcp_source_port(p: &TcpPacket) -> (r: u16)
    ensures
        r == tcp_source(tcp_bytes(*p)),
{
    p.get_source()
}

/// Calls `TcpPacket::get_destination`. The port is the big-endian number in
/// bytes 2 and 3.
#[verifier::external_body]
pub(crate) fn tcp_destination_port(p: &TcpPacket) -> (r: u16)
    ensures
        r == tcp_destination(tcp_bytes(*p)),
{
    p.get_destination()
}

/// Calls `Packet::payload` on a `TcpPacket`. The payload is every byte after
/// the options, which end where the data offset says if that is past the
/// fixed header.
#[verifier::external_body]
pub(crate) fn tcp_payload_of<'p>(p: &'p TcpPacket) -> (r: &'p [u8])
    ensures
        r@ == tcp_payload(tcp_bytes(*p)),
{
    p.payload()
}

/// Calls `UdpPacket::new`. It gives a packet exactly where `bytes` are
/// enough for the 8 bytes of a UDP header, and the packet is made over
/// `bytes`.
#[verifier::external_body]
pub(crate) fn udp_new<'a>(bytes: &'a [u8]) -> (r: Option<UdpPacket<'a>>)
    ensures
        r.is_some() <==> bytes@.len() >= UDP_HEADER_LEN,
        r matches Some(p) ==> udp_bytes(p) == bytes@,
{
    UdpPacket::new(bytes)
}

/// Calls `UdpPacket::get_source`. The port is the big-endian number in bytes
/// 0 and 1.
#[verifier::external_body]
pub(crate) fn udp_source_port(p: &UdpPacket) -> (r: u16)
    ensures
        r == udp_source(udp_bytes(*p)),
{
    p.get_source()
}

/// Calls `UdpPacket::get_destination`. The port is the big-endian number in
/// bytes 2 and 3.
#[verifier::external_body]
pub(crate) fn udp_destination_port(p: &UdpPacket) -> (r: u16)
    ensures
        r == udp_destination(udp_bytes(*p)),
{
    p.get_destination()
}

/// Calls `Packet::payload` on a `UdpPacket`. The payload is every byte after
/// the header.
#[verifier::external_body]
pub(crate) fn udp_payload_of<'p>(p: &'p UdpPacket) -> (r: &'p [u8])
    ensures
        r@ == udp_payload(udp_bytes(*p)),
{
    p.payload()
}

} // verus!
