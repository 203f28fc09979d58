//! Building the text that goes to the console: decimal numbers, dotted
//! addresses and hexadecimal octets.

use pnet::util::core_net::Ipv6Addr;
use vstd::prelude::*;

verus! {

/// The text of the IPv6 address with these sixteen octets, as the `Display`
/// of the address type writes it.
pub uninterp spec fn ipv6_text(octets: Seq<u8>) -> Seq<char>;

/// Makes the `Ipv6Addr` of these octets and calls `to_string` on it, which
/// writes the address as `Display` of the standard library does. Not proved:
/// the text is a function of the octets alone, the one named `ipv6_text`.
#[verifier::external_body]
pub(crate) fn ipv6_to_string(octets: &[u8; 16]) -> (r: String)
    ensures
        r@ == ipv6_text(octets@),
{
    Ipv6Addr::from(*octets).to_string()
}

/// Calls `String::push` of the standard library. Not proved: afterwards the
/// text is what it was, with `c` added at its end.
#[verifier::external_body]
pub(crate) fn push_char(text: &mut String, c: char)
    ensures
        final(text)@ == old(text)@.push(c),
{
    text.push(c);
}

/// The character for a decimal digit: the digits stand in a row from `0`,
/// which is character 48.
pub open spec fn digit_char(d: int) -> char {
    ((48 + d) as u8) as char
}

/// The character for a hexadecimal digit, letters in upper case: a decimal
/// digit up to nine, then the letters in a row from `A`, which is character
/// 65.
pub open spec fn hex_char(d: int) -> char {
    if d < 10 {
        digit_char(d)
    } else {
        ((65 + d - 10) as u8) as char
    }
}

/// A number in decimal, without leading zeros.
pub open spec fn decimal_text(n: nat) -> Seq<char>
    decreases n,
{
    if n < 10 {
        seq![digit_char(n as int)]
    } else {
        decimal_text(n / 10).push(digit_char((n % 10) as int))
    }
}

/// An IPv4 address in dot-decimal notation.
pub open spec fn dotted_quad(octets: Seq<u8>) -> Seq<char> {
    decimal_text(octets[0] as nat) + seq!['.'] + decimal_text(octets[1] as nat) + seq!['.']
        + decimal_text(octets[2] as nat) + seq!['.'] + decimal_text(octets[3] as nat)
}

/// An octet as two hexadecimal digits, letters in upper case.
pub open spec fn hex_octet(b: u8) -> Seq<char> {
    seq![hex_char(b as int / 16), hex_char(b as int % 16)]
}

/// The character for the decimal digit `d`.
fn digit(d: u8) -> (c: char)
    requires
        d < 10,
    ensures
        c == digit_char(d as int),
{
    (48u8 + d) as char
}

/// The character for the hexadecimal digit `d`.
fn hex_digit(d: u8) -> (c: char)
    requires
        d < 16,
    ensures
        c == hex_char(d as int),
{
    if d < 10 {
        digit(d)
    } else {
        (65u8 + (d - 10)) as char
    }
}

/// Appends `n` in decimal to `text`.
pub fn push_decimal(text: &mut String, n: u16)
    ensures
        final(text)@ == old(text)@ + decimal_text(n as nat),
    decreases n,
{
    if n >= 10 {
        push_decimal(text, n / 10);
    }
    push_char(text, digit((n % 10) as u8));
}

/// Appends `b` as two hexadecimal digits to `text`.
pub fn push_hex_octet(text: &mut String, b: u8)
    ensures
        final(text)@ == old(text)@ + hex_octet(b),
{
    push_char(text, hex_digit(b / 16));
    push_char(text, hex_digit(b % 16));
}

/// The decimal text of a port number.
pub fn port_text(port: u16) -> (r: String)
    ensures
        r@ == decimal_text(port as nat),
{
    let mut text = String::new();
    push_decimal(&mut text, port);
    text
}

/// The dot-decimal text of an IPv4 address.
pub fn ipv4_text(octets: &[u8; 4]) -> (r: String)
    ensures
        r@ == dotted_quad(octets@),
{
    let mut text = String::new();
    push_decimal(&mut text, octets[0] as u16);
    push_char(&mut text, '.');
    push_decimal(&mut text, octets[1] as u16);
    push_char(&mut text, '.');
    push_decimal(&mut text, octets[2] as u16);
    push_char(&mut text, '.');
    push_decimal(&mut text, octets[3] as u16);
    text
}

} // verus!
