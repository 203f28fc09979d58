//! The dispatcher: a frame is classified by its ethertype, the packet in it
//! by its protocol number, and what reaches the transport layer is rendered.

use vstd::prelude::*;
use crate::layout::{
    ethernet_payload, ethertype, ipv4_destination, ipv4_payload, ipv4_protocol, ipv4_source,
    ipv6_destination, ipv6_next_header, ipv6_payload, ipv6_source, tcp_destination, tcp_payload,
    tcp_source, udp_destination, udp_payload, udp_source, ETHERNET_HEADER_LEN, ETHERTYPE_IPV4,
    ETHERTYPE_IPV6, IPV4_HEADER_LEN, IPV6_HEADER_LEN, PROTOCOL_TCP, PROTOCOL_UDP, TCP_HEADER_LEN,
    UDP_HEADER_LEN,
};
use crate::packets::{EthernetView, GettableEndpoints, Ipv4View, Ipv6View, TcpView, UdpView};
use crate::render::{packet_info_text, render_packet_info, WIDTH};
use crate::text::{decimal_text, dotted_quad, ipv6_text};

verus! {

/// What became of a frame. `T` is the rendered text: a `String` in a value
/// that a handler returns, a sequence of characters in its view.
#[derive(Debug, PartialEq, Eq)]
pub enum Outcome<T> {
    /// The frame holds a TCP or UDP packet; this is its block for the console.
    Rendered(T),
    /// The frame carries neither IPv4 nor IPv6. Worth a line in the log.
    NotIp,
    /// The packet carries neither TCP nor UDP. Worth a line in the log.
    NotTransport,
    /// A header did not fit into the bytes. The frame is given up silently.
    Dropped,
}

impl View for Outcome<String> {
    type V = Outcome<Seq<char>>;

    open spec fn view(&self) -> Outcome<Seq<char>> {
        match self {
            Outcome::Rendered(text) => Outcome::Rendered(text@),
            Outcome::NotIp => Outcome::NotIp,
            Outcome::NotTransport => Outcome::NotTransport,
            Outcome::Dropped => Outcome::Dropped,
        }
    }
}

/// The line that an outcome is worth in the log, if any.
pub open spec fn log_text(outcome: Outcome<Seq<char>>) -> Option<Seq<char>> {
    match outcome {
        Outcome::NotIp => Some("Not an IPv4 or IPv6 packet"@),
        Outcome::NotTransport => Some("Not a TCP or UDP packet"@),
        _ => None,
    }
}

impl Outcome<String> {
    /// The line that goes to the log, where the outcome is worth one.
    pub fn log_line(&self) -> (r: Option<&'static str>)
        ensures
            match r {
                Some(line) => log_text(self@) == Some(line@),
                None => log_text(self@) is None,
            },
    {
        match self {
            Outcome::NotIp => Some("Not an IPv4 or IPv6 packet"),
            Outcome::NotTransport => Some("Not a TCP or UDP packet"),
            _ => None,
        }
    }
}

/// What becomes of the bytes `segment`, taken as a TCP segment between the
/// two network addresses.
pub open spec fn tcp_outcome(
    l3_source: Seq<char>,
    l3_destination: Seq<char>,
    segment: Seq<u8>,
) -> Outcome<Seq<char>> {
    if segment.len() >= TCP_HEADER_LEN {
        Outcome::Rendered(
            packet_info_text(
                "TCP"@,
                l3_source,
                decimal_text(tcp_source(segment) as nat),
                l3_destination,
                decimal_text(tcp_destination(segment) as nat),
                tcp_payload(segment),
                WIDTH as nat,
            ),
        )
    } else {
        Outcome::Dropped
    }
}

/// What becomes of the bytes `datagram`, taken as a UDP datagram between the
/// two network addresses.
pub open spec fn udp_outcome(
    l3_source: Seq<char>,
    l3_destination: Seq<char>,
    datagram: Seq<u8>,
) -> Outcome<Seq<char>> {
    if datagram.len() >= UDP_HEADER_LEN {
        Outcome::Rendered(
            packet_info_text(
                "UDP"@,
                l3_source,
                decimal_text(udp_source(datagram) as nat),
                l3_destination,
                decimal_text(udp_destination(datagram) as nat),
                udp_payload(datagram),
                WIDTH as nat,
            ),
        )
    } else {
        Outcome::Dropped
    }
}

/// What becomes of a packet with the protocol number `protocol` between the
/// two network addresses, which carries `payload`.
pub open spec fn transport_outcome(
    protocol: u8,
    l3_source: Seq<char>,
    l3_destination: Seq<char>,
    payload: Seq<u8>,
) -> Outcome<Seq<char>> {
    if protocol == PROTOCOL_TCP {
        tcp_outcome(l3_source, l3_destination, payload)
    } else if protocol == PROTOCOL_UDP {
        udp_outcome(l3_source, l3_destination, payload)
    } else {
        Outcome::NotTransport
    }
}

/// What becomes of the bytes `packet`, taken as an IPv4 packet.
pub open spec fn ipv4_outcome(packet: Seq<u8>) -> Outcome<Seq<char>> {
    if packet.len() >= IPV4_HEADER_LEN {
        transport_outcome(
            ipv4_protocol(packet),
            dotted_quad(ipv4_source(packet)),
            dotted_quad(ipv4_destination(packet)),
            ipv4_payload(packet),
        )
    } else {
        Outcome::Dropped
    }
}

/// What becomes of the bytes `packet`, taken as an IPv6 packet.
pub open spec fn ipv6_outcome(packet: Seq<u8>) -> Outcome<Seq<char>> {
    if packet.len() >= IPV6_HEADER_LEN {
        transport_outcome(
            ipv6_next_header(packet),
            ipv6_text(ipv6_source(packet)),
            ipv6_text(ipv6_destination(packet)),
            ipv6_payload(packet),
        )
    } else {
        Outcome::Dropped
    }
}

/// What becomes of an Ethernet frame whose header fits.
pub open spec fn ethernet_outcome(frame: Seq<u8>) -> Outcome<Seq<char>> {
    if ethertype(frame) == ETHERTYPE_IPV4 {
        ipv4_outcome(ethernet_payload(frame))
    } else if ethertype(frame) == ETHERTYPE_IPV6 {
        ipv6_outcome(ethernet_payload(frame))
    } else {
        Outcome::NotIp
    }
}

/// What becomes of the bytes of a captured frame.
pub open spec fn frame_outcome(frame: Seq<u8>) -> Outcome<Seq<char>> {
    if frame.len() >= ETHERNET_HEADER_LEN {
        ethernet_outcome(frame)
    } else {
        Outcome::Dropped
    }
}

/// Reads what `packet` carries as a TCP segment and renders it. Where the
/// bytes are too few for a TCP header, the packet is dropped.
pub fn tcp_handler<L3: GettableEndpoints + ?Sized>(packet: &L3) -> (r: Outcome<String>)
    ensures
        r@ == tcp_outcome(packet.source(), packet.destination(), packet.payload()),
{
    match TcpView::new(packet.get_payload()) {
        Some(tcp) => Outcome::Rendered(render_packet_info(packet, &tcp, "TCP")),
        None => Outcome::Dropped,
    }
}

/// Reads what `packet` carries as a UDP datagram and renders it. Where the
/// bytes are too few for a UDP header, the packet is dropped.
pub fn udp_handler<L3: GettableEndpoints + ?Sized>(packet: &L3) -> (r: Outcome<String>)
    ensures
        r@ == udp_outcome(packet.source(), packet.destination(), packet.payload()),
{
    match UdpView::new(packet.get_payload()) {
        Some(udp) => Outcome::Rendered(render_packet_info(packet, &udp, "UDP")),
        None => Outcome::Dropped,
    }
}

/// Reads what `ethernet` carries as an IPv4 packet and hands it on by its
/// protocol number.
pub fn ipv4_handler(ethernet: &EthernetView) -> (r: Outcome<String>)
    ensures
        r@ == ipv4_outcome(ethernet_payload(ethernet@)),
{
    match Ipv4View::new(ethernet.get_payload()) {
        Some(packet) => {
            let protocol: u8 = packet.get_next_level_protocol();
            if protocol == PROTOCOL_TCP {
                tcp_handler(&packet)
            } else if protocol == PROTOCOL_UDP {
                udp_handler(&packet)
            } else {
                Outcome::NotTransport
            }
        },
        None => Outcome::Dropped,
    }
}

/// Reads what `ethernet` carries as an IPv6 packet and hands it on by its
/// next-header number.
pub fn ipv6_handler(ethernet: &EthernetView) -> (r: Outcome<String>)
    ensures
        r@ == ipv6_outcome(ethernet_payload(ethernet@)),
{
    match Ipv6View::new(ethernet.get_payload()) {
        Some(packet) => {
            let protocol: u8 = packet.get_next_header();
            if protocol == PROTOCOL_TCP {
                tcp_handler(&packet)
            } else if protocol == PROTOCOL_UDP {
                udp_handler(&packet)
            } else {
                Outcome::NotTransport
            }
        },
        None => Outcome::Dropped,
    }
}

/// Hands an Ethernet frame on by its ethertype.
pub fn ethernet_handler(ethernet: &EthernetView) -> (r: Outcome<String>)
    ensures
        r@ == ethernet_outcome(ethernet@),
{
    let ethertype: u16 = ethernet.get_ethertype();
    if ethertype == ETHERTYPE_IPV4 {
        ipv4_handler(ethernet)
    } else if ethertype == ETHERTYPE_IPV6 {
        ipv6_handler(ethernet)
    } else {
        Outcome::NotIp
    }
}

/// Classifies the bytes of one captured frame and renders what reaches the
/// transport layer.
pub fn dispatch_frame(frame: &[u8]) -> (r: Outcome<String>)
    ensures
        r@ == frame_outcome(frame@),
{
    match EthernetView::new(frame) {
        Some(ethernet) => ethernet_handler(&ethernet),
        None => Outcome::Dropped,
    }
}

/// A frame too short for an Ethernet header is dropped, and so is one whose
/// IPv4 or IPv6 packet is too short for its header.
pub proof fn lemma_short_header_is_dropped(frame: Seq<u8>)
    ensures
        frame.len() < ETHERNET_HEADER_LEN ==> frame_outcome(frame) == Outcome::<
            Seq<char>,
        >::Dropped,
        frame.len() >= ETHERNET_HEADER_LEN && ethertype(frame) == ETHERTYPE_IPV4
            && ethernet_payload(frame).len() < IPV4_HEADER_LEN ==> frame_outcome(frame)
            == Outcome::<Seq<char>>::Dropped,
        frame.len() >= ETHERNET_HEADER_LEN && ethertype(frame) == ETHERTYPE_IPV6
            && ethernet_payload(frame).len() < IPV6_HEADER_LEN ==> frame_outcome(frame)
            == Outcome::<Seq<char>>::Dropped,
{
}

/// A frame whose ethertype is neither that of IPv4 nor that of IPv6 is not
/// handed to a network handler and not rendered: it ends as `NotIp`, which
/// is worth a line in the log.
pub proof fn lemma_unknown_ethertype(frame: Seq<u8>)
    requires
        frame.len() >= ETHERNET_HEADER_LEN,
        ethertype(frame) != ETHERTYPE_IPV4,
        ethertype(frame) != ETHERTYPE_IPV6,
    ensures
        frame_outcome(frame) == Outcome::<Seq<char>>::NotIp,
        log_text(frame_outcome(frame)) == Some("Not an IPv4 or IPv6 packet"@),
{
}

/// An IPv4 packet in an Ethernet frame is rendered under the label `TCP`
/// where its protocol number is that of TCP, under the label `UDP` where it
/// is that of UDP, each with the addresses, ports and payload of the frame,
/// as long as the transport header fits. Where that header does not fit,
/// the frame is dropped and nothing is rendered. With any other protocol
/// number the packet is not rendered either: it ends as `NotTransport`,
/// which is worth a line in the log.
pub proof fn lemma_ipv4_dispatch(frame: Seq<u8>)
    requires
        frame.len() >= ETHERNET_HEADER_LEN,
        ethertype(frame) == ETHERTYPE_IPV4,
        ethernet_payload(frame).len() >= IPV4_HEADER_LEN,
    ensures
        ({
            let packet = ethernet_payload(frame);
            let carried = ipv4_payload(packet);
            let source = dotted_quad(ipv4_source(packet));
            let destination = dotted_quad(ipv4_destination(packet));
            &&& ipv4_protocol(packet) == PROTOCOL_TCP && carried.len() >= TCP_HEADER_LEN
                ==> frame_outcome(frame) == Outcome::Rendered(
                packet_info_text(
                    "TCP"@,
                    source,
                    decimal_text(tcp_source(carried) as nat),
                    destination,
                    decimal_text(tcp_destination(carried) as nat),
                    tcp_payload(carried),
                    WIDTH as nat,
                ),
            )
            &&& ipv4_protocol(packet) == PROTOCOL_UDP && carried.len() >= UDP_HEADER_LEN
                ==> frame_outcome(frame) == Outcome::Rendered(
                packet_info_text(
                    "UDP"@,
                    source,
                    decimal_text(udp_source(carried) as nat),
                    destination,
                    decimal_text(udp_destination(carried) as nat),
                    udp_payload(carried),
                    WIDTH as nat,
                ),
            )
            &&& ipv4_protocol(packet) == PROTOCOL_TCP && carried.len() < TCP_HEADER_LEN
                ==> frame_outcome(frame) == Outcome::<Seq<char>>::Dropped
            &&& ipv4_protocol(packet) == PROTOCOL_UDP && carried.len() < UDP_HEADER_LEN
                ==> frame_outcome(frame) == Outcome::<Seq<char>>::Dropped
            &&& ipv4_protocol(packet) != PROTOCOL_TCP && ipv4_protocol(packet) != PROTOCOL_UDP
                ==> frame_outcome(frame) == Outcome::<Seq<char>>::NotTransport && log_text(
                frame_outcome(frame),
            ) == Some("Not a TCP or UDP packet"@)
        }),
{
}

/// The same holds of an IPv6 packet and its next-header number.
pub proof fn lemma_ipv6_dispatch(frame: Seq<u8>)
    requires
        frame.len() >= ETHERNET_HEADER_LEN,
        ethertype(frame) == ETHERTYPE_IPV6,
        ethernet_payload(frame).len() >= IPV6_HEADER_LEN,
    ensures
        ({
            let packet = ethernet_payload(frame);
            let carried = ipv6_payload(packet);
            let source = ipv6_text(ipv6_source(packet));
            let destination = ipv6_text(ipv6_destination(packet));
            &&& ipv6_next_header(packet) == PROTOCOL_TCP && carried.len() >= TCP_HEADER_LEN
                ==> frame_outcome(frame) == Outcome::Rendered(
                packet_info_text(
                    "TCP"@,
                    source,
                    decimal_text(tcp_source(carried) as nat),
                    destination,
                    decimal_text(tcp_destination(carried) as nat),
                    tcp_payload(carried),
                    WIDTH as nat,
                ),
            )
            &&& ipv6_next_header(packet) == PROTOCOL_UDP && carried.len() >= UDP_HEADER_LEN
                ==> frame_outcome(frame) == Outcome::Rendered(
                packet_info_text(
                    "UDP"@,
                    source,
                    decimal_text(udp_source(carried) as nat),
                    destination,
                    decimal_text(udp_destination(carried) as nat),
                    udp_payload(carried),
                    WIDTH as nat,
                ),
            )
            &&& ipv6_next_header(packet) == PROTOCOL_TCP && carried.len() < TCP_HEADER_LEN
                ==> frame_outcome(frame) == Outcome::<Seq<char>>::Dropped
            &&& ipv6_next_header(packet) == PROTOCOL_UDP && carried.len() < UDP_HEADER_LEN
                ==> frame_outcome(frame) == Outcome::<Seq<char>>::Dropped
            &&& ipv6_next_header(packet) != PROTOCOL_TCP && ipv6_next_header(packet)
                != PROTOCOL_UDP ==> frame_outcome(frame) == Outcome::<Seq<char>>::NotTransport
                && log_text(frame_outcome(frame)) == Some("Not a TCP or UDP packet"@)
        }),
{
}

/// Bytes too few for a TCP header are dropped as a TCP segment, and bytes too
/// few for a UDP header as a UDP datagram, whatever the packet around them:
/// nothing is rendered and nothing is worth a line in the log.
pub proof fn lemma_short_transport_is_dropped(
    l3_source: Seq<char>,
    l3_destination: Seq<char>,
    carried: Seq<u8>,
)
    ensures
        carried.len() < TCP_HEADER_LEN ==> tcp_outcome(l3_source, l3_destination, carried)
            == Outcome::<Seq<char>>::Dropped,
        carried.len() < UDP_HEADER_LEN ==> udp_outcome(l3_source, l3_destination, carried)
            == Outcome::<Seq<char>>::Dropped,
        log_text(Outcome::<Seq<char>>::Dropped) is None,
{
}

/// Nothing but the bytes of a frame decides what becomes of it: where the
/// same bytes are dispatched twice, the two outcomes are the same, and what
/// was rendered is the same text, character by character.
pub proof fn lemma_dispatch_is_repeatable(
    frame: Seq<u8>,
    first: Outcome<String>,
    second: Outcome<String>,
)
    requires
        first@ == frame_outcome(frame),
        second@ == frame_outcome(frame),
    ensures
        first@ == second@,
        first matches Outcome::Rendered(a) ==> second matches Outcome::Rendered(b) && a@ == b@,
{
}

} // verus!
