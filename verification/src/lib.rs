//! Classification and console rendering of captured link-layer frames.
//!
//! A frame is peeled one header at a time (Ethernet, then IPv4 or IPv6, then
//! TCP or UDP). A frame that reaches the transport layer is rendered as a
//! header line followed by a fixed-width hex and ASCII dump of its payload.
//! Header decoding is done by `pnet`; everything built on top of it is
//! verified.
//!
//! - [`layout`] says where the header fields lie in the bytes.
//! - [`decode`] holds the calls into `pnet`, which are trusted.
//! - [`packets`] has a view for each protocol and the trait they share.
//! - [`text`] writes numbers and addresses.
//! - [`render`] builds the block for the console.
//! - [`dispatch`] decides what becomes of a frame.

pub mod layout;
pub mod decode;
pub mod text;
pub mod packets;
pub mod render;
pub mod dispatch;
