use packet_sniffer::text::{ipv4_text, port_text, push_decimal, push_hex_octet};

#[test]
fn decimal_digits() {
    let all: String = (0u16..10).map(port_text).collect();
    assert_eq!(all, "0123456789");
}

#[test]
fn hexadecimal_digits() {
    let mut all = String::new();
    for d in 0u8..16 {
        push_hex_octet(&mut all, d * 16 + d);
    }
    assert_eq!(all, "00112233445566778899AABBCCDDEEFF");
}

#[test]
fn ports_in_decimal() {
    assert_eq!(port_text(0), "0");
    assert_eq!(port_text(7), "7");
    assert_eq!(port_text(10), "10");
    assert_eq!(port_text(80), "80");
    assert_eq!(port_text(443), "443");
    assert_eq!(port_text(8080), "8080");
    assert_eq!(port_text(10000), "10000");
    assert_eq!(port_text(65535), "65535");
}

#[test]
fn every_port_reads_as_the_standard_library_writes_it() {
    for port in 0u16..=65535 {
        assert_eq!(port_text(port), format!("{}", port));
    }
}

#[test]
fn push_decimal_appends() {
    let mut text = String::from("port ");
    push_decimal(&mut text, 1024);
    push_decimal(&mut text, 0);
    assert_eq!(text, "port 10240");
}

#[test]
fn push_hex_octet_appends_two_digits() {
    let mut text = String::from("x");
    push_hex_octet(&mut text, 0x0a);
    push_hex_octet(&mut text, 0xf0);
    push_hex_octet(&mut text, 0x00);
    assert_eq!(text, "x0AF000");
}

#[test]
fn every_octet_reads_as_two_upper_case_digits() {
    for b in 0u8..=255 {
        let mut text = String::new();
        push_hex_octet(&mut text, b);
        assert_eq!(text, format!("{:02X}", b));
    }
}

#[test]
fn addresses_in_dot_decimal() {
    assert_eq!(ipv4_text(&[0, 0, 0, 0]), "0.0.0.0");
    assert_eq!(ipv4_text(&[127, 0, 0, 1]), "127.0.0.1");
    assert_eq!(ipv4_text(&[192, 168, 10, 99]), "192.168.10.99");
    assert_eq!(ipv4_text(&[255, 255, 255, 255]), "255.255.255.255");
    assert_eq!(ipv4_text(&[1, 20, 100, 9]), "1.20.100.9");
}
