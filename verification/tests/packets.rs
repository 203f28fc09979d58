use packet_sniffer::layout::{
    ETHERNET_HEADER_LEN, ETHERTYPE_IPV4, ETHERTYPE_IPV6, IPV4_HEADER_LEN, IPV6_HEADER_LEN,
    PROTOCOL_TCP, PROTOCOL_UDP, TCP_HEADER_LEN, UDP_HEADER_LEN,
};
use packet_sniffer::packets::{
    EthernetView, GettableEndpoints, Ipv4View, Ipv6View, TcpView, UdpView,
};

fn counting(len: usize) -> Vec<u8> {
    (0..len).map(|i| (i * 7 + 3) as u8).collect()
}

#[test]
fn header_lengths_and_numbers() {
    assert_eq!(ETHERNET_HEADER_LEN, 14);
    assert_eq!(IPV4_HEADER_LEN, 20);
    assert_eq!(IPV6_HEADER_LEN, 40);
    assert_eq!(TCP_HEADER_LEN, 20);
    assert_eq!(UDP_HEADER_LEN, 8);
    assert_eq!(ETHERTYPE_IPV4, 0x0800);
    assert_eq!(ETHERTYPE_IPV6, 0x86DD);
    assert_eq!(PROTOCOL_TCP, 6);
    assert_eq!(PROTOCOL_UDP, 17);
}

#[test]
fn ethernet_view_needs_a_whole_header() {
    for len in 0..14 {
        assert!(EthernetView::new(&counting(len)).is_none(), "len {}", len);
    }
    for len in 14..40 {
        assert!(EthernetView::new(&counting(len)).is_some(), "len {}", len);
    }
}

#[test]
fn ipv4_view_needs_a_whole_header() {
    for len in 0..20 {
        assert!(Ipv4View::new(&counting(len)).is_none(), "len {}", len);
    }
    for len in 20..70 {
        assert!(Ipv4View::new(&counting(len)).is_some(), "len {}", len);
    }
}

#[test]
fn ipv6_view_needs_a_whole_header() {
    for len in 0..40 {
        assert!(Ipv6View::new(&counting(len)).is_none(), "len {}", len);
    }
    for len in 40..70 {
        assert!(Ipv6View::new(&counting(len)).is_some(), "len {}", len);
    }
}

#[test]
fn tcp_view_needs_a_whole_header() {
    for len in 0..20 {
        assert!(TcpView::new(&counting(len)).is_none(), "len {}", len);
    }
    for len in 20..70 {
        assert!(TcpView::new(&counting(len)).is_some(), "len {}", len);
    }
}

#[test]
fn udp_view_needs_a_whole_header() {
    for len in 0..8 {
        assert!(UdpView::new(&counting(len)).is_none(), "len {}", len);
    }
    for len in 8..30 {
        assert!(UdpView::new(&counting(len)).is_some(), "len {}", len);
    }
}

#[test]
fn ethernet_fields() {
    let mut frame = counting(20);
    frame[12] = 0x86;
    frame[13] = 0xdd;
    let view = EthernetView::new(&frame).unwrap();
    assert_eq!(view.get_ethertype(), 0x86DD);
    assert_eq!(view.get_payload(), &frame[14..]);
    frame[12] = 0x08;
    frame[13] = 0x06;
    let view = EthernetView::new(&frame).unwrap();
    assert_eq!(view.get_ethertype(), 0x0806);
}

#[test]
fn ethernet_payload_is_what_follows_the_header() {
    for len in 14..40 {
        let frame = counting(len);
        let view = EthernetView::new(&frame).unwrap();
        assert_eq!(view.get_payload(), &frame[14..]);
    }
}

#[test]
fn ipv4_fields() {
    let mut packet = counting(28);
    packet[0] = 0x45;
    packet[2] = 0;
    packet[3] = 28;
    packet[9] = 17;
    packet[12..16].copy_from_slice(&[192, 168, 1, 20]);
    packet[16..20].copy_from_slice(&[10, 0, 0, 255]);
    let view = Ipv4View::new(&packet).unwrap();
    assert_eq!(view.get_next_level_protocol(), 17);
    assert_eq!(view.get_source(), "192.168.1.20");
    assert_eq!(view.get_destination(), "10.0.0.255");
    assert_eq!(view.get_payload(), &packet[20..28]);
}

fn expected_ipv4_payload(packet: &[u8]) -> &[u8] {
    let declared = (packet[0] % 16) as usize * 4;
    let total = packet[2] as usize * 256 + packet[3] as usize;
    let start = 20 + declared.saturating_sub(20);
    let end = (start + total.saturating_sub(declared)).min(packet.len());
    if packet.len() <= start {
        &[]
    } else {
        &packet[start..end]
    }
}

#[test]
fn ipv4_payload_follows_declared_lengths() {
    let totals = [0usize, 1, 19, 20, 21, 24, 25, 40, 59, 60, 61, 64, 100, 255, 256, 1500, 65535];
    for len in [20usize, 21, 24, 25, 40, 59, 60, 61, 64, 100] {
        for first in [0x40u8, 0x41, 0x44, 0x45, 0x46, 0x4a, 0x4f, 0x05, 0xff] {
            for total in totals {
                let mut packet = counting(len);
                packet[0] = first;
                packet[2] = (total >> 8) as u8;
                packet[3] = total as u8;
                let view = Ipv4View::new(&packet).unwrap();
                assert_eq!(
                    view.get_payload(),
                    expected_ipv4_payload(&packet),
                    "len {} first {:#x} total {}",
                    len,
                    first,
                    total
                );
            }
        }
    }
}

#[test]
fn ipv4_payload_skips_options_and_stops_at_total_length() {
    let mut packet = counting(40);
    packet[0] = 0x46;
    packet[2] = 0;
    packet[3] = 30;
    let view = Ipv4View::new(&packet).unwrap();
    assert_eq!(view.get_payload(), &packet[24..30]);
}

#[test]
fn ipv6_fields() {
    let mut packet = counting(48);
    packet[4] = 0;
    packet[5] = 8;
    packet[6] = 6;
    packet[8..24].copy_from_slice(&[0xfe, 0x80, 0, 0, 0, 0, 0, 0, 0x02, 0x11, 0x22, 0xff, 0xfe, 0x33, 0x44, 0x55]);
    packet[24..40].copy_from_slice(&[0xff, 0x02, 0, 0, 0, 0, 0, 0, 0, 0, 0, 0, 0, 0, 0, 0xfb]);
    let view = Ipv6View::new(&packet).unwrap();
    assert_eq!(view.get_next_header(), 6);
    assert_eq!(view.get_source(), "fe80::211:22ff:fe33:4455");
    assert_eq!(view.get_destination(), "ff02::fb");
    assert_eq!(view.get_payload(), &packet[40..48]);
}

#[test]
fn ipv6_addresses_as_text() {
    let mut packet = vec![0u8; 40];
    packet[8..24].copy_from_slice(&[0, 0, 0, 0, 0, 0, 0, 0, 0, 0, 0xff, 0xff, 192, 0, 2, 128]);
    packet[24..40].copy_from_slice(&[0x20, 0x01, 0x0d, 0xb8, 0, 0, 0, 1, 0, 0, 0, 0, 0, 0, 0, 1]);
    let view = Ipv6View::new(&packet).unwrap();
    assert_eq!(view.get_source(), "::ffff:192.0.2.128");
    assert_eq!(view.get_destination(), "2001:db8:0:1::1");
    let zero = vec![0u8; 40];
    let view = Ipv6View::new(&zero).unwrap();
    assert_eq!(view.get_source(), "::");
    assert_eq!(view.get_destination(), "::");
}

#[test]
fn ipv6_payload_follows_declared_length() {
    for len in [40usize, 41, 48, 60, 100] {
        for declared in [0usize, 1, 7, 8, 20, 59, 60, 61, 1000, 65535] {
            let mut packet = counting(len);
            packet[4] = (declared >> 8) as u8;
            packet[5] = declared as u8;
            let view = Ipv6View::new(&packet).unwrap();
            let end = (40 + declared).min(len);
            let expected: &[u8] = if len <= 40 { &[] } else { &packet[40..end] };
            assert_eq!(view.get_payload(), expected, "len {} declared {}", len, declared);
        }
    }
}

#[test]
fn tcp_fields() {
    let mut segment = counting(30);
    segment[0] = 0x30;
    segment[1] = 0x39;
    segment[2] = 0x01;
    segment[3] = 0xbb;
    segment[12] = 0x50;
    let view = TcpView::new(&segment).unwrap();
    assert_eq!(view.get_source(), "12345");
    assert_eq!(view.get_destination(), "443");
    assert_eq!(view.get_payload(), &segment[20..]);
}

#[test]
fn tcp_payload_follows_data_offset() {
    for len in [20usize, 21, 24, 32, 59, 60, 61, 80] {
        for offset in 0u8..16 {
            for low in [0u8, 0x0f] {
                let mut segment = counting(len);
                segment[12] = offset * 16 + low;
                let view = TcpView::new(&segment).unwrap();
                let start = if offset > 5 { offset as usize * 4 } else { 20 };
                let expected: &[u8] = if len <= start { &[] } else { &segment[start..] };
                assert_eq!(view.get_payload(), expected, "len {} offset {}", len, offset);
            }
        }
    }
}

#[test]
fn udp_fields() {
    let mut datagram = counting(12);
    datagram[0] = 0;
    datagram[1] = 53;
    datagram[2] = 0xff;
    datagram[3] = 0xff;
    datagram[4] = 0;
    datagram[5] = 9;
    let view = UdpView::new(&datagram).unwrap();
    assert_eq!(view.get_source(), "53");
    assert_eq!(view.get_destination(), "65535");
    assert_eq!(view.get_payload(), &datagram[8..]);
}

#[test]
fn udp_payload_is_what_follows_the_header() {
    for len in 8..30 {
        let datagram = counting(len);
        let view = UdpView::new(&datagram).unwrap();
        assert_eq!(view.get_payload(), &datagram[8..]);
    }
}

#[test]
fn ports_are_big_endian() {
    for (hi, lo) in [(0u8, 0u8), (0, 1), (1, 0), (0x1f, 0x90), (0xff, 0xfe), (0xff, 0xff)] {
        let expected = format!("{}", hi as u32 * 256 + lo as u32);
        let mut segment = vec![0u8; 20];
        segment[0] = hi;
        segment[1] = lo;
        segment[2] = lo;
        segment[3] = hi;
        let swapped = format!("{}", lo as u32 * 256 + hi as u32);
        let tcp = TcpView::new(&segment).unwrap();
        assert_eq!(tcp.get_source(), expected);
        assert_eq!(tcp.get_destination(), swapped);
        let udp = UdpView::new(&segment).unwrap();
        assert_eq!(udp.get_source(), expected);
        assert_eq!(udp.get_destination(), swapped);
    }
}

#[test]
fn layers_answer_through_the_trait() {
    let mut packet = counting(28);
    packet[0] = 0x45;
    packet[2] = 0;
    packet[3] = 28;
    packet[12..20].copy_from_slice(&[1, 2, 3, 4, 5, 6, 7, 8]);
    let view = Ipv4View::new(&packet).unwrap();
    let layer: &dyn GettableEndpoints = &view;
    assert_eq!(layer.get_source(), "1.2.3.4");
    assert_eq!(layer.get_destination(), "5.6.7.8");
    assert_eq!(layer.get_payload(), &packet[20..]);
}
