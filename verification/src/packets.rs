//! Layer views: one protocol header read over borrowed bytes, and the three
//! things every layer can be asked for.

use pnet::packet::ethernet::EthernetPacket;
use pnet::packet::ipv4::Ipv4Packet;
use pnet::packet::ipv6::Ipv6Packet;
use pnet::packet::tcp::TcpPacket;
use pnet::packet::udp::UdpPacket;
use vstd::prelude::*;
use crate::decode::{
    ethernet_bytes, ethernet_ethertype, ethernet_new, ethernet_payload_of, ipv4_bytes,
    ipv4_destination_octets, ipv4_new, ipv4_next_level_protocol, ipv4_payload_of,
    ipv4_source_octets, ipv6_bytes, ipv6_destination_octets, ipv6_new, ipv6_next_header_of,
    ipv6_payload_of, ipv6_source_octets, tcp_bytes, tcp_destination_port, tcp_new,
    tcp_payload_of, tcp_source_port, udp_bytes, udp_destination_port, udp_new, udp_payload_of,
    udp_source_port,
};
use crate::layout::{
    ethernet_payload, ethertype, ipv4_destination, ipv4_payload, ipv4_protocol, ipv4_source,
    ipv6_destination, ipv6_next_header, ipv6_payload, ipv6_source, tcp_destination, tcp_payload,
    tcp_source, udp_destination, udp_payload, udp_source, ETHERNET_HEADER_LEN, IPV4_HEADER_LEN,
    IPV6_HEADER_LEN, TCP_HEADER_LEN, UDP_HEADER_LEN,
};
use crate::text::{
    decimal_text, dotted_quad, ipv4_text, ipv6_text, ipv6_to_string, port_text,
};

verus! {

/// What the renderer asks of a layer: who sent, who receives, and what is
/// carried.
pub trait GettableEndpoints {
    /// The text that names the sender at this layer.
    spec fn source(&self) -> Seq<char>;

    /// The text that names the receiver at this layer.
    spec fn destination(&self) -> Seq<char>;

    /// The bytes that follow this layer's header.
    spec fn payload(&self) -> Seq<u8>;

    /// The sender at this layer, as text.
    fn get_source(&self) -> (r: String)
        ensures
            r@ == self.source(),
    ;

    /// The receiver at this layer, as text.
    fn get_destination(&self) -> (r: String)
        ensures
            r@ == self.destination(),
    ;

    /// What this layer carries, borrowed from the bytes it was read over.
    fn get_payload(&self) -> (r: &[u8])
        ensures
            r@ == self.payload(),
    ;
}

/// An Ethernet frame read over borrowed bytes.
pub struct EthernetView<'a> {
    packet: EthernetPacket<'a>,
}

impl<'a> View for EthernetView<'a> {
    type V = Seq<u8>;

    /// The bytes of the frame, header included.
    closed spec fn view(&self) -> Seq<u8> {
        ethernet_bytes(self.packet)
    }
}

impl<'a> EthernetView<'a> {
    #[verifier::type_invariant]
    spec fn holds_header(&self) -> bool {
        ethernet_bytes(self.packet).len() >= ETHERNET_HEADER_LEN
    }

    /// Reads `bytes` as an Ethernet frame. Fails exactly when they are too
    /// few to hold the header.
    pub fn new(bytes: &'a [u8]) -> (r: Option<EthernetView<'a>>)
        ensures
            r.is_some() <==> bytes@.len() >= ETHERNET_HEADER_LEN,
            r matches Some(v) ==> v@ == bytes@,
    {
        match ethernet_new(bytes) {
            Some(packet) => Some(EthernetView { packet }),
            None => None,
        }
    }

    /// The ethertype of the frame.
    pub fn get_ethertype(&self) -> (r: u16)
        ensures
            self@.len() >= ETHERNET_HEADER_LEN,
            r == ethertype(self@),
    {
        proof {
            use_type_invariant(self);
        }
        ethernet_ethertype(&self.packet)
    }

    /// The bytes that the frame carries.
    pub fn get_payload(&self) -> (r: &[u8])
        ensures
            self@.len() >= ETHERNET_HEADER_LEN,
            r@ == ethernet_payload(self@),
    {
        proof {
            use_type_invariant(self);
        }
        ethernet_payload_of(&self.packet)
    }
}

/// An IPv4 packet read over borrowed bytes.
pub struct Ipv4View<'a> {
    packet: Ipv4Packet<'a>,
}

impl<'a> View for Ipv4View<'a> {
    type V = Seq<u8>;

    /// The bytes of the packet, header included.
    closed spec fn view(&self) -> Seq<u8> {
        ipv4_bytes(self.packet)
    }
}

impl<'a> Ipv4View<'a> {
    #[verifier::type_invariant]
    spec fn holds_header(&self) -> bool {
        ipv4_bytes(self.packet).len() >= IPV4_HEADER_LEN
    }

    /// Reads `bytes` as an IPv4 packet. Fails exactly when they are too few
    /// to hold a header without options.
    pub fn new(bytes: &'a [u8]) -> (r: Option<Ipv4View<'a>>)
        ensures
            r.is_some() <==> bytes@.len() >= IPV4_HEADER_LEN,
            r matches Some(v) ==> v@ == bytes@,
    {
        match ipv4_new(bytes) {
            Some(packet) => Some(Ipv4View { packet }),
            None => None,
        }
    }

    /// The protocol number of what the packet carries.
    pub fn get_next_level_protocol(&self) -> (r: u8)
        ensures
            self@.len() >= IPV4_HEADER_LEN,
            r == ipv4_protocol(self@),
    {
        proof {
            use_type_invariant(self);
        }
        ipv4_next_level_protocol(&self.packet)
    }
}

impl<'a> GettableEndpoints for Ipv4View<'a> {
    /// The source address in dot-decimal notation.
    open spec fn source(&self) -> Seq<char> {
        dotted_quad(ipv4_source(self@))
    }

    /// The destination address in dot-decimal notation.
    open spec fn destination(&self) -> Seq<char> {
        dotted_quad(ipv4_destination(self@))
    }

    open spec fn payload(&self) -> Seq<u8> {
        ipv4_payload(self@)
    }

    fn get_source(&self) -> (r: String) {
        let octets = ipv4_source_octets(&self.packet);
        ipv4_text(&octets)
    }

    fn get_destination(&self) -> (r: String) {
        let octets = ipv4_destination_octets(&self.packet);
        ipv4_text(&octets)
    }

    fn get_payload(&self) -> (r: &[u8])
        ensures
            self@.len() >= IPV4_HEADER_LEN,
    {
        proof {
            use_type_invariant(self);
        }
        ipv4_payload_of(&self.packet)
    }
}

/// An IPv6 packet read over borrowed bytes.
pub struct Ipv6View<'a> {
    packet: Ipv6Packet<'a>,
}

impl<'a> View for Ipv6View<'a> {
    type V = Seq<u8>;

    /// The bytes of the packet, header included.
    closed spec fn view(&self) -> Seq<u8> {
        ipv6_bytes(self.packet)
    }
}

impl<'a> Ipv6View<'a> {
    #[verifier::type_invariant]
    spec fn holds_header(&self) -> bool {
        ipv6_bytes(self.packet).len() >= IPV6_HEADER_LEN
    }

    /// Reads `bytes` as an IPv6 packet. Fails exactly when they are too few
    /// to hold the fixed header.
    pub fn new(bytes: &'a [u8]) -> (r: Option<Ipv6View<'a>>)
        ensures
            r.is_some() <==> bytes@.len() >= IPV6_HEADER_LEN,
            r matches Some(v) ==> v@ == bytes@,
    {
        match ipv6_new(bytes) {
            Some(packet) => Some(Ipv6View { packet }),
            None => None,
        }
    }

    /// The number of the header that follows the fixed header.
    pub fn get_next_header(&self) -> (r: u8)
        ensures
            self@.len() >= IPV6_HEADER_LEN,
            r == ipv6_next_header(self@),
    {
        proof {
            use_type_invariant(self);
        }
        ipv6_next_header_of(&self.packet)
    }
}

impl<'a> GettableEndpoints for Ipv6View<'a> {
    /// The source address as text.
    open spec fn source(&self) -> Seq<char> {
        ipv6_text(ipv6_source(self@))
    }

    /// The destination address as text.
    open spec fn destination(&self) -> Seq<char> {
        ipv6_text(ipv6_destination(self@))
    }

    open spec fn payload(&self) -> Seq<u8> {
        ipv6_payload(self@)
    }

    fn get_source(&self) -> (r: String) {
        let octets = ipv6_source_octets(&self.packet);
        ipv6_to_string(&octets)
    }

    fn get_destination(&self) -> (r: String) {
        let octets = ipv6_destination_octets(&self.packet);
        ipv6_to_string(&octets)
    }

    fn get_payload(&self) -> (r: &[u8])
        ensures
            self@.len() >= IPV6_HEADER_LEN,
    {
        proof {
            use_type_invariant(self);
        }
        ipv6_payload_of(&self.packet)
    }
}

/// A TCP segment read over borrowed bytes.
pub struct TcpView<'a> {
    packet: TcpPacket<'a>,
}

impl<'a> View for TcpView<'a> {
    type V = Seq<u8>;

    /// The bytes of the segment, header included.
    closed spec fn view(&self) -> Seq<u8> {
        tcp_bytes(self.packet)
    }
}

impl<'a> TcpView<'a> {
    #[verifier::type_invariant]
    spec fn holds_header(&self) -> bool {
        tcp_bytes(self.packet).len() >= TCP_HEADER_LEN
    }

    /// Reads `bytes` as a TCP segment. Fails exactly when they are too few
    /// to hold a header without options.
    pub fn new(bytes: &'a [u8]) -> (r: Option<TcpView<'a>>)
        ensures
            r.is_some() <==> bytes@.len() >= TCP_HEADER_LEN,
            r matches Some(v) ==> v@ == bytes@,
    {
        match tcp_new(bytes) {
            Some(packet) => Some(TcpView { packet }),
            None => None,
        }
    }
}

impl<'a> GettableEndpoints for TcpView<'a> {
    /// The source port in decimal.
    open spec fn source(&self) -> Seq<char> {
        decimal_text(tcp_source(self@) as nat)
    }

    /// The destination port in decimal.
    open spec fn destination(&self) -> Seq<char> {
        decimal_text(tcp_destination(self@) as nat)
    }

    open spec fn payload(&self) -> Seq<u8> {
        tcp_payload(self@)
    }

    fn get_source(&self) -> (r: String) {
        port_text(tcp_source_port(&self.packet))
    }

    fn get_destination(&self) -> (r: String) {
        port_text(tcp_destination_port(&self.packet))
    }

    fn get_payload(&self) -> (r: &[u8])
        ensures
            self@.len() >= TCP_HEADER_LEN,
    {
        proof {
            use_type_invariant(self);
        }
        tcp_payload_of(&self.packet)
    }
}

/// A UDP datagram read over borrowed bytes.
pub struct UdpView<'a> {
    packet: UdpPacket<'a>,
}

impl<'a> View for UdpView<'a> {
    type V = Seq<u8>;

    /// The bytes of the datagram, header included.
    closed spec fn view(&self) -> Seq<u8> {
        udp_bytes(self.packet)
    }
}

impl<'a> UdpView<'a> {
    #[verifier::type_invariant]
    spec fn holds_header(&self) -> bool {
        udp_bytes(self.packet).len() >= UDP_HEADER_LEN
    }

    /// Reads `bytes` as a UDP datagram. Fails exactly when they are too few
    /// to hold the header.
    pub fn new(bytes: &'a [u8]) -> (r: Option<UdpView<'a>>)
        ensures
            r.is_some() <==> bytes@.len() >= UDP_HEADER_LEN,
            r matches Some(v) ==> v@ == bytes@,
    {
        match udp_new(bytes) {
            Some(packet) => Some(UdpView { packet }),
            None => None,
        }
    }
}

impl<'a> GettableEndpoints for UdpView<'a> {
    /// The source port in decimal.
    open spec fn source(&self) -> Seq<char> {
        decimal_text(udp_source(self@) as nat)
    }

    /// The destination port in decimal.
    open spec fn destination(&self) -> Seq<char> {
        decimal_text(udp_destination(self@) as nat)
    }

    open spec fn payload(&self) -> Seq<u8> {
        udp_payload(self@)
    }

    fn get_source(&self) -> (r: String) {
        port_text(udp_source_port(&self.packet))
    }

    fn get_destination(&self) -> (r: String) {
        port_text(udp_destination_port(&self.packet))
    }

    fn get_payload(&self) -> (r: &[u8])
        ensures
            self@.len() >= UDP_HEADER_LEN,
    {
        proof {
            use_type_invariant(self);
        }
        udp_payload_of(&self.packet)
    }
}

} // verus!
