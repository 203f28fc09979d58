use packet_sniffer::packets::{GettableEndpoints, Ipv4View, Ipv6View, TcpView, UdpView};
use packet_sniffer::render::{hex_dump, is_ascii_letter, push_dump, render_packet_info, WIDTH};

fn lines(text: &str) -> Vec<&str> {
    text.split_terminator('\n').collect()
}

#[test]
fn width_is_twenty() {
    assert_eq!(WIDTH, 20);
}

#[test]
fn empty_payload_has_no_rows() {
    assert_eq!(hex_dump(&[], 20), "");
    assert_eq!(hex_dump(&[], 1), "");
}

#[test]
fn single_octet_row_is_padded_to_the_sidebar_column() {
    let expected = format!("41 {}| A\n", " ".repeat(57));
    assert_eq!(hex_dump(&[0x41], 20), expected);
}

#[test]
fn letters_then_zeros_over_two_rows() {
    let mut payload: Vec<u8> = Vec::new();
    for b in b'A'..=b'J' {
        payload.push(b);
    }
    for _ in 10..25 {
        payload.push(0);
    }
    assert_eq!(payload.len(), 25);
    let row1 = "41 42 43 44 45 46 47 48 49 4A 00 00 00 00 00 00 00 00 00 00 | ABCDEFGHIJ..........\n";
    let row2 = format!("00 00 00 00 00 {}| .....\n", " ".repeat(45));
    let text = hex_dump(&payload, 20);
    assert_eq!(text, format!("{}{}", row1, row2));
    let rows = lines(&text);
    assert_eq!(rows.len(), 2);
    assert_eq!(rows[0].find('|'), Some(60));
    assert_eq!(rows[1].find('|'), Some(60));
    assert_eq!(&rows[0][62..], "ABCDEFGHIJ..........");
    assert_eq!(&rows[1][62..], ".....");
}

#[test]
fn full_row_has_no_padding() {
    let payload: Vec<u8> = (0u8..20).collect();
    let text = hex_dump(&payload, 20);
    assert_eq!(
        text,
        "00 01 02 03 04 05 06 07 08 09 0A 0B 0C 0D 0E 0F 10 11 12 13 | ....................\n"
    );
}

#[test]
fn hex_digits_are_upper_case_and_two_wide() {
    assert_eq!(hex_dump(&[0x00, 0x0f, 0xa0, 0xff, 0x9c], 5), "00 0F A0 FF 9C | .....\n");
}

#[test]
fn row_count_is_length_over_width_rounded_up() {
    for width in 1usize..=24 {
        for len in 0usize..=100 {
            let payload: Vec<u8> = (0..len).map(|i| (i % 251) as u8).collect();
            let text = hex_dump(&payload, width);
            let rows = lines(&text);
            assert_eq!(rows.len(), (len + width - 1) / width, "len {} width {}", len, width);
            assert_eq!(text.matches('\n').count(), rows.len());
            for (r, row) in rows.iter().enumerate() {
                let shown = if (r + 1) * width <= len { width } else { len - r * width };
                assert_eq!(row.len(), 3 * width + 2 + shown);
                assert_eq!(&row[3 * width..3 * width + 2], "| ");
                let cells: Vec<&str> = row[..3 * width].split_whitespace().collect();
                assert_eq!(cells.len(), shown);
                for (j, cell) in cells.iter().enumerate() {
                    assert_eq!(*cell, format!("{:02X}", payload[r * width + j]));
                }
                assert!(row[3 * shown..3 * width].chars().all(|c| c == ' '));
            }
        }
    }
}

#[test]
fn sidebar_shows_letters_and_dots() {
    for b in 0u8..=255 {
        let text = hex_dump(&[b], 1);
        let shown = text.chars().nth(5).unwrap();
        let letter = (b'A'..=b'Z').contains(&b) || (b'a'..=b'z').contains(&b);
        assert_eq!(is_ascii_letter(b), letter);
        if letter {
            assert_eq!(shown, b as char);
        } else {
            assert_eq!(shown, '.');
        }
        assert_eq!(text.chars().count(), 7);
    }
}

#[test]
fn digits_and_punctuation_show_as_dots() {
    let payload = b"09 !@[`{~az AZ";
    assert_eq!(
        hex_dump(payload, 14),
        "30 39 20 21 40 5B 60 7B 7E 61 7A 20 41 5A | .........az.AZ\n"
    );
}

#[test]
fn push_dump_appends_to_what_is_there() {
    let mut text = String::from("head\n");
    push_dump(&mut text, &[0x61, 0x62, 0x63], 2);
    assert_eq!(text, "head\n61 62 | ab\n63    | c\n");
}

fn ipv4_bytes(protocol: u8, source: [u8; 4], destination: [u8; 4], carried: &[u8]) -> Vec<u8> {
    let total = 20 + carried.len();
    let mut bytes = vec![0x45, 0, (total >> 8) as u8, total as u8, 0, 0, 0, 0, 64, protocol, 0, 0];
    bytes.extend_from_slice(&source);
    bytes.extend_from_slice(&destination);
    bytes.extend_from_slice(carried);
    bytes
}

fn tcp_bytes(source: u16, destination: u16, carried: &[u8]) -> Vec<u8> {
    let mut bytes = vec![0u8; 20];
    bytes[0..2].copy_from_slice(&source.to_be_bytes());
    bytes[2..4].copy_from_slice(&destination.to_be_bytes());
    bytes[12] = 0x50;
    bytes.extend_from_slice(carried);
    bytes
}

fn udp_bytes(source: u16, destination: u16, carried: &[u8]) -> Vec<u8> {
    let mut bytes = vec![0u8; 8];
    bytes[0..2].copy_from_slice(&source.to_be_bytes());
    bytes[2..4].copy_from_slice(&destination.to_be_bytes());
    bytes[4..6].copy_from_slice(&((8 + carried.len()) as u16).to_be_bytes());
    bytes.extend_from_slice(carried);
    bytes
}

#[test]
fn block_for_a_tcp_packet() {
    let segment = tcp_bytes(12345, 80, b"GET / HTTP/1.1\r\nHost: a\r\n\r\n");
    let packet = ipv4_bytes(6, [192, 168, 0, 1], [10, 0, 0, 2], &segment);
    let l3 = Ipv4View::new(&packet).unwrap();
    let l4 = TcpView::new(l3.get_payload()).unwrap();
    let text = render_packet_info(&l3, &l4, "TCP");
    let expected = format!(
        "{}{}{}{}{}",
        "Captured a TCP packet from 192.168.0.1|12345 to 10.0.0.2|80\n",
        "47 45 54 20 2F 20 48 54 54 50 2F 31 2E 31 0D 0A 48 6F 73 74 | GET...HTTP......Host\n",
        format!("3A 20 61 0D 0A 0D 0A {}| ..a....\n", " ".repeat(39)),
        "=".repeat(60),
        "\n\n"
    );
    assert_eq!(text, expected);
}

#[test]
fn block_for_an_empty_payload_is_header_and_rule() {
    let datagram = udp_bytes(53, 5353, &[]);
    let packet = ipv4_bytes(17, [8, 8, 8, 8], [172, 16, 254, 3], &datagram);
    let l3 = Ipv4View::new(&packet).unwrap();
    let l4 = UdpView::new(l3.get_payload()).unwrap();
    let text = render_packet_info(&l3, &l4, "UDP");
    assert_eq!(
        text,
        format!(
            "Captured a UDP packet from 8.8.8.8|53 to 172.16.254.3|5353\n{}\n\n",
            "=".repeat(60)
        )
    );
}

#[test]
fn block_takes_trait_objects_and_any_label() {
    let mut packet = vec![0x60, 0, 0, 0, 0, 11, 17, 64];
    packet.extend_from_slice(&[0x20, 0x01, 0x0d, 0xb8, 0, 0, 0, 0, 0, 0, 0, 0, 0, 0, 0, 1]);
    packet.extend_from_slice(&[0, 0, 0, 0, 0, 0, 0, 0, 0, 0, 0, 0, 0, 0, 0, 1]);
    packet.extend_from_slice(&udp_bytes(1, 65535, b"xyz"));
    let l3 = Ipv6View::new(&packet).unwrap();
    let l4 = UdpView::new(l3.get_payload()).unwrap();
    let a: &dyn GettableEndpoints = &l3;
    let b: &dyn GettableEndpoints = &l4;
    let text = render_packet_info(a, b, "datagram");
    assert_eq!(
        text,
        format!(
            "Captured a datagram packet from 2001:db8::1|1 to ::1|65535\n78 79 7A {}| xyz\n{}\n\n",
            " ".repeat(51),
            "=".repeat(60)
        )
    );
}
