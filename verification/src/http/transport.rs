//! The transport settings that make the client's TLS and HTTP/2 handshakes
//! look like a browser's: the cipher suites it offers and their order, the
//! protocols it proposes, and its HTTP/2 flow-control windows.
use vstd::prelude::*;

verus! {

/// The initial HTTP/2 stream window, in bytes (Chrome's).
pub const HTTP2_STREAM_WINDOW: u32 = 6_291_456;

/// The initial HTTP/2 connection window, in bytes (Chrome's).
pub const HTTP2_CONNECTION_WINDOW: u32 = 15_663_105;

/// The IANA code points of the cipher suites offered, in order: the TLS 1.3
/// suites (AES-128-GCM, AES-256-GCM, ChaCha20-Poly1305), then the TLS 1.2
/// ECDHE suites, ECDSA before RSA for each of AES-128-GCM, AES-256-GCM and
/// ChaCha20-Poly1305.
pub open spec fn cipher_suite_order() -> Seq<u16> {
    seq![0x1301u16, 0x1302, 0x1303, 0xc02b, 0xc02f, 0xc02c, 0xc030, 0xcca9, 0xcca8]
}

/// The protocols proposed by ALPN, in order: HTTP/2, then HTTP/1.1.
pub open spec fn alpn_order() -> Seq<Seq<u8>> {
    seq![seq![104u8, 50], seq![104u8, 116, 116, 112, 47, 49, 46, 49]]
}

/// The cipher suites to offer, by IANA code point, in order.
pub fn cipher_suites() -> (r: Vec<u16>)
    ensures
        r@ == cipher_suite_order(),
{
    let r: Vec<u16> = vec![0x1301, 0x1302, 0x1303, 0xc02b, 0xc02f, 0xc02c, 0xc030, 0xcca9, 0xcca8];
    assert(r@ =~= cipher_suite_order());
    r
}

/// The ALPN protocol identifiers to propose (`h2`, `http/1.1`), in order.
pub fn alpn_protocols() -> (r: Vec<Vec<u8>>)
    ensures
        r@.map_values(|p: Vec<u8>| p@) == alpn_order(),
{
    let h2: Vec<u8> = vec![104, 50];
    let http1: Vec<u8> = vec![104, 116, 116, 112, 47, 49, 46, 49];
    let r = vec![h2, http1];
    assert(r@.map_values(|p: Vec<u8>| p@) =~= alpn_order());
    r
}

} // verus!
