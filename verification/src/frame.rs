//! Decoding of the two wire frames the listener understands.
//!
//! A startup frame is `[u32 length][u32 protocol version][...]`, both fields
//! big-endian; only the version at byte offset 4 is inspected, and a buffer
//! shorter than 8 bytes is not a valid startup frame.  A simple-query frame
//! is `[u8 tag][u32 length][query bytes to the end of the buffer]`; a buffer
//! shorter than 6 bytes is not valid, and only the tag `Q` marks a query.
//! Neither decoder checks the declared length field against the bytes that
//! actually arrived: a frame larger than the receive buffer is truncated.

use vstd::prelude::*;
use vstd::slice::slice_subrange;

verus! {

/// The version identifier that denotes protocol 3.0.
pub const PROTOCOL_VERSION_3_0: u32 = 196608;

/// Tag byte (ASCII `Q`) that opens a simple-query frame.
pub const QUERY_TAG: u8 = 81;

/// Shortest buffer that can be a startup frame.
pub const MIN_STARTUP_LEN: usize = 8;

/// Shortest buffer that can be a simple-query frame.
pub const MIN_QUERY_LEN: usize = 6;

/// Value of the 4-byte big-endian field of `s` that starts at `off`.
pub open spec fn be_u32_at(s: Seq<u8>, off: int) -> u32
    recommends
        0 <= off,
        off + 4 <= s.len(),
{
    ((s[off] as int) * 0x1000000 + (s[off + 1] as int) * 0x10000 + (s[off + 2] as int) * 0x100
        + (s[off + 3] as int)) as u32
}

/// Reads the 4-byte big-endian field of `buffer` that starts at `off`.
pub fn read_be_u32(buffer: &[u8], off: usize) -> (r: u32)
    requires
        off + 4 <= buffer@.len(),
    ensures
        r == be_u32_at(buffer@, off as int),
{
    let b0 = buffer[off] as u32;
    let b1 = buffer[off + 1] as u32;
    let b2 = buffer[off + 2] as u32;
    let b3 = buffer[off + 3] as u32;
    b0 * 0x1000000 + b1 * 0x10000 + b2 * 0x100 + b3
}

/// What decoding a startup frame found.
#[derive(Debug, Clone, Copy, PartialEq, Eq, Structural)]
pub enum StartupReport {
    /// The buffer is shorter than the 8 bytes a startup frame needs.
    InvalidFrame,
    /// The version field holds 196608, protocol 3.0.
    VersionThreeZero,
    /// Any other version field, carried raw.
    UnknownVersion(u32),
}

/// The report `interpret_startup` owes for a received buffer.
pub open spec fn spec_startup_report(s: Seq<u8>) -> StartupReport {
    if s.len() < MIN_STARTUP_LEN {
        StartupReport::InvalidFrame
    } else if be_u32_at(s, 4) == PROTOCOL_VERSION_3_0 {
        StartupReport::VersionThreeZero
    } else {
        StartupReport::UnknownVersion(be_u32_at(s, 4))
    }
}

/// Decodes a received buffer as a startup frame.
///
/// A buffer shorter than 8 bytes is reported invalid and no version field is
/// decoded; otherwise the big-endian version at offset 4 is reported, either
/// as protocol 3.0 or as an unknown raw value.
pub fn interpret_startup(buffer: &[u8]) -> (r: StartupReport)
    ensures
        r == spec_startup_report(buffer@),
{
    if buffer.len() < MIN_STARTUP_LEN {
        StartupReport::InvalidFrame
    } else {
        let version = read_be_u32(buffer, 4);
        if version == PROTOCOL_VERSION_3_0 {
            StartupReport::VersionThreeZero
        } else {
            StartupReport::UnknownVersion(version)
        }
    }
}

/// The characters `String::from_utf8_lossy` decodes some bytes to.  The
/// decoding depends on the bytes alone, so it can be named without being
/// written out.
pub uninterp spec fn lossy_utf8(bytes: Seq<u8>) -> Seq<char>;

/// Relies on `String::from_utf8_lossy`: the decoding is a function of the
/// bytes alone (invalid sequences become replacement characters).
#[verifier::external_body]
fn decode_utf8_lossy(bytes: &[u8]) -> (r: String)
    ensures
        r@ == lossy_utf8(bytes@),
{
    String::from_utf8_lossy(bytes).into_owned()
}

/// What decoding a simple-query frame found.
#[derive(Debug)]
pub enum QueryReport {
    /// The buffer is shorter than the 6 bytes a query frame needs.
    InvalidFrame,
    /// A `Q`-tagged frame; `text` is the query, decoded lossily as UTF-8
    /// from byte 5 to the end of the buffer.
    Query { text: String },
    /// A long enough buffer whose tag is not `Q`: deliberately no report at
    /// all, mirroring the silent no-op of the wire listener.
    Ignored,
}

/// Decodes a received buffer as a simple-query frame.
///
/// A buffer shorter than 6 bytes is reported invalid.  Otherwise, when the
/// tag byte is `Q`, the bytes from offset 5 to the end are the query text,
/// decoded lossily as UTF-8; any other tag yields no report.
pub fn interpret_query(buffer: &[u8]) -> (r: QueryReport)
    ensures
        buffer@.len() < MIN_QUERY_LEN ==> (r matches QueryReport::InvalidFrame),
        buffer@.len() >= MIN_QUERY_LEN && buffer@[0] == QUERY_TAG ==> (r matches QueryReport::Query {
            text,
        } && text@ == lossy_utf8(buffer@.subrange(5, buffer@.len() as int))),
        buffer@.len() >= MIN_QUERY_LEN && buffer@[0] != QUERY_TAG ==> (r matches QueryReport::Ignored),
{
    if buffer.len() < MIN_QUERY_LEN {
        QueryReport::InvalidFrame
    } else if buffer[0] == QUERY_TAG {
        let rest = slice_subrange(buffer, 5, buffer.len());
        let text = decode_utf8_lossy(rest);
        QueryReport::Query { text }
    } else {
        QueryReport::Ignored
    }
}

} // verus!
