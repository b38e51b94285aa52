//! LD06/LD19 LiDAR packet layout and decoding.
//!
//! A packet is 47 bytes: header `0x54`, version/length `0x2C`, speed (LE u16),
//! start angle (LE u16, hundredths of a degree), 12 measurements of
//! distance (LE u16, mm) and intensity (u8), end angle (LE u16), timestamp
//! (LE u16, ms) and a CRC-8 over the first 46 bytes.

use vstd::prelude::*;
use crate::crc::{calculate_crc8, crc8_spec};

verus! {

/// First byte of every packet.
pub const PKG_HEADER: u8 = 0x54;
/// Second byte of every packet (version and point count).
pub const PKG_VER_LEN: u8 = 0x2C;
/// Number of measurements carried by one packet.
pub const POINTS_PER_PACKET: usize = 12;
/// Total packet size in bytes.
pub const PACKET_SIZE: usize = 47;

/// LiDAR product type.
#[derive(Debug, Clone, Copy, PartialEq, Eq)]
pub enum LidarType {
    LD06,
    LD19,
    Unknown,
}

/// A single measurement within a packet.
#[derive(Debug, Clone, Copy, Default, PartialEq, Eq)]
pub struct LidarPoint {
    pub distance: u16,
    pub intensity: u8,
}

/// A complete 47-byte LiDAR data packet, field by field.
#[derive(Debug, Clone, Copy, PartialEq, Eq)]
pub struct LidarPacket {
    pub header: u8,
    pub ver_len: u8,
    pub speed: u16,
    pub start_angle: u16,
    pub points: [LidarPoint; 12],
    pub end_angle: u16,
    pub timestamp: u16,
    pub crc8: u8,
}

/// Little-endian value of two bytes.
pub open spec fn le16(lo: u8, hi: u8) -> u16 {
    (hi as int * 256 + lo as int) as u16
}

/// The measurement stored at slot `i` (0..12) of a packet's bytes.
pub open spec fn point_at(data: Seq<u8>, i: int) -> LidarPoint {
    LidarPoint {
        distance: le16(data[6 + 3 * i], data[7 + 3 * i]),
        intensity: data[8 + 3 * i],
    }
}

/// The packet whose fields are read from the first 47 bytes of `data`
/// (no check of header or checksum).
pub open spec fn packet_fields(data: Seq<u8>) -> LidarPacket {
    LidarPacket {
        header: data[0],
        ver_len: data[1],
        speed: le16(data[2], data[3]),
        start_angle: le16(data[4], data[5]),
        points: [
            point_at(data, 0),
            point_at(data, 1),
            point_at(data, 2),
            point_at(data, 3),
            point_at(data, 4),
            point_at(data, 5),
            point_at(data, 6),
            point_at(data, 7),
            point_at(data, 8),
            point_at(data, 9),
            point_at(data, 10),
            point_at(data, 11),
        ],
        end_angle: le16(data[42], data[43]),
        timestamp: le16(data[44], data[45]),
        crc8: data[46],
    }
}

/// The layout of a packet: the fixed fields sit at bytes 0..6 and 42..47, and
/// measurement `i` (0..12) sits at bytes `6 + 3i ..= 8 + 3i`, its distance in
/// little-endian order followed by its intensity.
pub proof fn lemma_packet_layout(data: Seq<u8>)
    requires
        data.len() >= PACKET_SIZE,
    ensures
        packet_fields(data).header == data[0],
        packet_fields(data).ver_len == data[1],
        packet_fields(data).speed == data[2] + 256 * data[3],
        packet_fields(data).start_angle == data[4] + 256 * data[5],
        packet_fields(data).end_angle == data[42] + 256 * data[43],
        packet_fields(data).timestamp == data[44] + 256 * data[45],
        packet_fields(data).crc8 == data[46],
        forall|i: int|
            0 <= i < 12 ==> {
                &&& #[trigger] packet_fields(data).points@[i].distance == data[6 + 3 * i] + 256
                    * data[7 + 3 * i]
                &&& packet_fields(data).points@[i].intensity == data[8 + 3 * i]
            },
{
    let p = packet_fields(data);
    assert forall|i: int| 0 <= i < 12 implies {
        &&& #[trigger] p.points@[i].distance == data[6 + 3 * i] + 256 * data[7 + 3 * i]
        &&& p.points@[i].intensity == data[8 + 3 * i]
    } by {
        assert(i == 0 || i == 1 || i == 2 || i == 3 || i == 4 || i == 5 || i == 6 || i == 7 || i
            == 8 || i == 9 || i == 10 || i == 11);
    }
}

/// Whether the first two bytes of `data` are the packet header.
pub open spec fn has_header(data: Seq<u8>) -> bool {
    data.len() >= 2 && data[0] == PKG_HEADER && data[1] == PKG_VER_LEN
}

/// Whether byte 46 of `data` is the checksum of its first 46 bytes.
pub open spec fn checksum_ok(data: Seq<u8>) -> bool {
    data.len() >= PACKET_SIZE && data[46] == crc8_spec(data.take(46))
}

/// What `LidarPacket::from_bytes` yields for `data`: a packet when `data` holds at
/// least 47 bytes that start with the header and carry a matching checksum.
pub open spec fn spec_from_bytes(data: Seq<u8>) -> Option<LidarPacket> {
    if data.len() >= PACKET_SIZE && has_header(data) && checksum_ok(data) {
        Some(packet_fields(data))
    } else {
        None
    }
}

/// Read a little-endian u16 from two bytes.
pub fn read_le16(lo: u8, hi: u8) -> (v: u16)
    ensures
        v == le16(lo, hi),
{
    (hi as u16) * 256 + (lo as u16)
}

fn read_point(data: &[u8], i: usize) -> (p: LidarPoint)
    requires
        i < POINTS_PER_PACKET,
        data@.len() >= PACKET_SIZE,
    ensures
        p == point_at(data@, i as int),
{
    let offset = 6 + i * 3;
    LidarPoint { distance: read_le16(data[offset], data[offset + 1]), intensity: data[offset + 2] }
}

/// Read all packet fields from the first 47 bytes of `data`.
pub fn read_packet_fields(data: &[u8]) -> (p: LidarPacket)
    requires
        data@.len() >= PACKET_SIZE,
    ensures
        p == packet_fields(data@),
        forall|i: int|
            0 <= i < 12 ==> {
                &&& #[trigger] p.points@[i].distance == data@[6 + 3 * i] + 256 * data@[7 + 3 * i]
                &&& p.points@[i].intensity == data@[8 + 3 * i]
            },
{
    proof {
        lemma_packet_layout(data@);
    }
    let points = [
        read_point(data, 0),
        read_point(data, 1),
        read_point(data, 2),
        read_point(data, 3),
        read_point(data, 4),
        read_point(data, 5),
        read_point(data, 6),
        read_point(data, 7),
        read_point(data, 8),
        read_point(data, 9),
        read_point(data, 10),
        read_point(data, 11),
    ];
    LidarPacket {
        header: data[0],
        ver_len: data[1],
        speed: read_le16(data[2], data[3]),
        start_angle: read_le16(data[4], data[5]),
        points,
        end_angle: read_le16(data[42], data[43]),
        timestamp: read_le16(data[44], data[45]),
        crc8: data[46],
    }
}

/// Whether byte 46 of `data` is the checksum of bytes 0..46.
pub fn packet_checksum_ok(data: &[u8]) -> (ok: bool)
    requires
        data@.len() >= PACKET_SIZE,
    ensures
        ok == checksum_ok(data@),
{
    let expected = data[PACKET_SIZE - 1];
    let body = slice_prefix(data, PACKET_SIZE - 1);
    let calculated = calculate_crc8(body);
    expected == calculated
}

/// The first `n` bytes of a slice.
pub fn slice_prefix(data: &[u8], n: usize) -> (out: &[u8])
    requires
        n <= data@.len(),
    ensures
        out@ == data@.take(n as int),
{
    let (head, _tail) = data.split_at(n);
    head
}

impl LidarPacket {
    /// Parse a packet from raw bytes: `None` when fewer than 47 bytes are given,
    /// the header is wrong, or the checksum does not match.
    pub fn from_bytes(data: &[u8]) -> (res: Option<LidarPacket>)
        ensures
            res == spec_from_bytes(data@),
    {
        if data.len() < PACKET_SIZE {
            return None;
        }
        if data[0] != PKG_HEADER || data[1] != PKG_VER_LEN {
            return None;
        }
        if !packet_checksum_ok(data) {
            return None;
        }
        Some(read_packet_fields(data))
    }

    /// Angular span from start to end angle in hundredths of a degree:
    /// `(end + 36000 - start)` with the sign-keeping remainder by 36000.
    pub fn angle_span_raw(&self) -> (span: i32)
        ensures
            span as int == span_raw_spec(self.start_angle, self.end_angle),
    {
        let x: i32 = (self.end_angle as i32) + 36000 - (self.start_angle as i32);
        if x >= 0 {
            x % 36000
        } else {
            let m: i32 = (-x) % 36000;
            -m
        }
    }
}

/// `(end + 36000 - start) % 36000` with the remainder taking the sign of the dividend.
pub open spec fn span_raw_spec(start: u16, end: u16) -> int {
    let x = end as int + 36000 - start as int;
    if x >= 0 {
        x % 36000
    } else {
        -((-x) % 36000)
    }
}

} // verus!
