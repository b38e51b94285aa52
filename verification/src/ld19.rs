//! Byte-stream framing of the LD19 driver: finding packets in a serial stream,
//! checking them, and decoding their fields.

use vstd::prelude::*;
use crate::crc::{calculate_crc8, crc8_spec};
use crate::packet::{
    checksum_ok, has_header, packet_checksum_ok, packet_fields, read_packet_fields,
    spec_from_bytes, LidarPacket, PACKET_SIZE, PKG_HEADER, PKG_VER_LEN,
};

verus! {

/// Error conditions of the LD19 packet decoder.
#[derive(Debug, Clone, Copy, PartialEq, Eq)]
pub enum DriverError {
    FrameTooShort,
    ChecksumMismatch,
    UnexpectedHeader,
}

/// Whether the two bytes at `i` and `i + 1` of `b` are the packet header.
pub open spec fn header_at(b: Seq<u8>, i: int) -> bool {
    0 <= i && i + 1 < b.len() && b[i] == PKG_HEADER && b[i + 1] == PKG_VER_LEN
}

/// The framing of `b` from position `pos` on: the packets found (in stream order)
/// and the position from which the bytes are kept for the next call.
///
/// The stream is scanned for the first header. Without a header everything is
/// dropped, except a last byte that is the first header byte (the next data may
/// complete the header); a header without 47 bytes behind it is kept (with what
/// follows) for later; otherwise the 47 bytes are consumed, kept as a packet when
/// their checksum matches, and scanning goes on behind them.
pub open spec fn frame_from(b: Seq<u8>, pos: int) -> (Seq<LidarPacket>, int)
    recommends
        0 <= pos <= b.len(),
    decreases b.len() - pos,
{
    if pos < 0 || pos >= b.len() {
        (Seq::empty(), b.len() as int)
    } else if pos + 1 == b.len() {
        if b[pos] == PKG_HEADER {
            (Seq::empty(), pos)
        } else {
            (Seq::empty(), b.len() as int)
        }
    } else if !header_at(b, pos) {
        frame_from(b, pos + 1)
    } else if pos + PACKET_SIZE > b.len() {
        (Seq::empty(), pos)
    } else {
        let rest = frame_from(b, pos + PACKET_SIZE);
        match spec_from_bytes(b.subrange(pos, pos + PACKET_SIZE)) {
            Some(p) => (seq![p] + rest.0, rest.1),
            None => rest,
        }
    }
}

/// The framing of a whole buffer.
pub open spec fn frame(b: Seq<u8>) -> (Seq<LidarPacket>, int) {
    frame_from(b, 0)
}

/// Every packet framed from `pos` on has the header, and the kept position lies
/// between `pos` and the end of the buffer: at the end, at a header without a
/// full packet behind it, or at a last byte that is the first header byte.
pub proof fn lemma_frame_from_sound(b: Seq<u8>, pos: int)
    requires
        0 <= pos <= b.len(),
    ensures
        pos <= frame_from(b, pos).1 <= b.len(),
        frame_from(b, pos).1 == b.len() || (header_at(b, frame_from(b, pos).1) && frame_from(
            b,
            pos,
        ).1 + PACKET_SIZE > b.len()) || (frame_from(b, pos).1 == b.len() - 1 && b.last()
            == PKG_HEADER),
        forall|i: int|
            0 <= i < frame_from(b, pos).0.len() ==> {
                let p = #[trigger] frame_from(b, pos).0[i];
                &&& p.header == PKG_HEADER
                &&& p.ver_len == PKG_VER_LEN
            },
    decreases b.len() - pos,
{
    if pos + 1 >= b.len() {
    } else if !header_at(b, pos) {
        lemma_frame_from_sound(b, pos + 1);
    } else if pos + PACKET_SIZE > b.len() {
    } else {
        lemma_frame_from_sound(b, pos + PACKET_SIZE);
        let rest = frame_from(b, pos + PACKET_SIZE);
        match spec_from_bytes(b.subrange(pos, pos + PACKET_SIZE)) {
            Some(p) => {
                assert forall|i: int| 0 <= i < frame_from(b, pos).0.len() implies {
                    let q = #[trigger] frame_from(b, pos).0[i];
                    &&& q.header == PKG_HEADER
                    &&& q.ver_len == PKG_VER_LEN
                } by {
                    if i > 0 {
                        assert(frame_from(b, pos).0[i] == rest.0[i - 1]);
                    }
                }
            },
            None => {},
        }
    }
}

/// Framing a suffix of a buffer is framing the buffer from the suffix's start.
pub proof fn lemma_frame_shift(c: Seq<u8>, k: int, q: int)
    requires
        0 <= k <= c.len(),
        0 <= q <= c.len() - k,
    ensures
        frame_from(c.skip(k), q).0 == frame_from(c, k + q).0,
        frame_from(c.skip(k), q).1 == frame_from(c, k + q).1 - k,
    decreases c.len() - k - q,
{
    let d = c.skip(k);
    if q + 1 >= d.len() {
        if q + 1 == d.len() {
            assert(d[q] == c[k + q]);
        }
    } else {
        assert(header_at(d, q) == header_at(c, k + q));
        if !header_at(d, q) {
            lemma_frame_shift(c, k, q + 1);
        } else if q + PACKET_SIZE > d.len() {
        } else {
            assert(d.subrange(q, q + PACKET_SIZE) =~= c.subrange(k + q, k + q + PACKET_SIZE));
            lemma_frame_shift(c, k, q + PACKET_SIZE);
        }
    }
}

proof fn lemma_frame_split_from(b1: Seq<u8>, d2: Seq<u8>, pos: int)
    requires
        0 <= pos <= b1.len(),
    ensures
        ({
            let b = b1 + d2;
            let k1 = frame_from(b1, pos).1;
            let rest = b1.skip(k1) + d2;
            &&& 0 <= k1 <= b1.len()
            &&& frame_from(b, pos).0 == frame_from(b1, pos).0 + frame(rest).0
            &&& frame_from(b, pos).1 == k1 + frame(rest).1
        }),
    decreases b1.len() - pos,
{
    let b = b1 + d2;
    lemma_frame_from_sound(b1, pos);
    if pos + 1 >= b1.len() {
        let k1 = frame_from(b1, pos).1;
        assert(b1.skip(k1) + d2 =~= b.skip(k1));
        lemma_frame_shift(b, k1, 0);
        if pos == b1.len() - 1 && b1[pos] != PKG_HEADER {
            assert(!header_at(b, pos));
            assert(frame_from(b, pos) == frame_from(b, pos + 1));
        }
        assert(frame_from(b1, pos).0 + frame(b1.skip(k1) + d2).0 =~= frame(b1.skip(k1) + d2).0);
    } else {
        assert(header_at(b, pos) == header_at(b1, pos));
        if !header_at(b1, pos) {
            lemma_frame_split_from(b1, d2, pos + 1);
        } else if pos + PACKET_SIZE > b1.len() {
            assert(b1.skip(pos) + d2 =~= b.skip(pos));
            lemma_frame_shift(b, pos, 0);
            assert(Seq::<LidarPacket>::empty() + frame(b1.skip(pos) + d2).0 =~= frame(b1.skip(pos) + d2).0);
        } else {
            assert(b.subrange(pos, pos + PACKET_SIZE) =~= b1.subrange(pos, pos + PACKET_SIZE));
            lemma_frame_split_from(b1, d2, pos + PACKET_SIZE);
            let r = frame(b1.skip(frame_from(b1, pos).1) + d2).0;
            match spec_from_bytes(b1.subrange(pos, pos + PACKET_SIZE)) {
                Some(p) => {
                    assert(seq![p] + frame_from(b1, pos + PACKET_SIZE).0 + r =~= seq![p] + (
                    frame_from(b1, pos + PACKET_SIZE).0 + r));
                },
                None => {},
            }
        }
    }
}

/// Feeding a byte stream in two chunks gives the same packets, in the same
/// order, and leaves the same bytes waiting, as feeding it at once, wherever the
/// stream is cut.
pub proof fn lemma_incremental_framing(b1: Seq<u8>, d2: Seq<u8>)
    ensures
        ({
            let k1 = frame(b1).1;
            let rest = b1.skip(k1) + d2;
            &&& frame(b1 + d2).0 == frame(b1).0 + frame(rest).0
            &&& (b1 + d2).skip(frame(b1 + d2).1) == rest.skip(frame(rest).1)
        }),
{
    lemma_frame_split_from(b1, d2, 0);
    let k1 = frame(b1).1;
    let rest = b1.skip(k1) + d2;
    lemma_frame_from_sound(b1, 0);
    lemma_frame_from_sound(rest, 0);
    assert((b1 + d2).skip(k1 + frame(rest).1) =~= rest.skip(frame(rest).1));
}

/// Bytes `start .. start + len` of a slice.
pub fn subslice(data: &[u8], start: usize, len: usize) -> (out: &[u8])
    requires
        start + len <= data@.len(),
    ensures
        out@ == data@.subrange(start as int, start + len),
{
    let (_head, tail) = data.split_at(start);
    let (mid, _rest) = tail.split_at(len);
    assert(mid@ =~= data@.subrange(start as int, start + len));
    mid
}

/// Append `data` to the stream buffer, then take out every complete packet with a
/// matching checksum, in stream order. Afterwards the buffer holds only the bytes
/// that must wait for more data (a header without 47 bytes behind it, and what
/// follows it, or a last byte that is the first header byte); it is emptied
/// when no header is left.
pub fn extract_packets(buffer: &mut Vec<u8>, data: &[u8]) -> (packets: Vec<LidarPacket>)
    ensures
        packets@ == frame(old(buffer)@ + data@).0,
        final(buffer)@ == (old(buffer)@ + data@).skip(frame(old(buffer)@ + data@).1),
{
    buffer.extend_from_slice(data);
    let ghost b = buffer@;
    assert(b =~= old(buffer)@ + data@);
    let len = buffer.len();
    let mut out: Vec<LidarPacket> = Vec::new();
    let mut pos: usize = 0;
    let keep: usize;
    loop
        invariant
            buffer@ == b,
            len == b.len(),
            pos <= len,
            out@ + frame_from(b, pos as int).0 == frame(b).0,
            frame_from(b, pos as int).1 == frame(b).1,
        ensures
            keep <= len,
            out@ == frame(b).0,
            keep == frame(b).1,
        decreases len - pos,
    {
        if len - pos < 2 {
            assert(out@ + Seq::<LidarPacket>::empty() =~= out@);
            if len - pos == 1 && buffer[pos] == PKG_HEADER {
                keep = pos;
            } else {
                keep = len;
            }
            break;
        }
        let is_header = buffer[pos] == PKG_HEADER && buffer[pos + 1] == PKG_VER_LEN;
        if !is_header {
            pos = pos + 1;
        } else if len - pos < PACKET_SIZE {
            assert(out@ + Seq::<LidarPacket>::empty() =~= out@);
            keep = pos;
            break;
        } else {
            let pkt = subslice(buffer.as_slice(), pos, PACKET_SIZE);
            let parsed = LidarPacket::from_bytes(pkt);
            let ghost rest = frame_from(b, pos + PACKET_SIZE);
            match parsed {
                Some(p) => {
                    out.push(p);
                    assert(out@ + rest.0 =~= out@.drop_last() + (seq![p] + rest.0));
                },
                None => {},
            }
            pos = pos + PACKET_SIZE;
        }
    }
    proof {
        lemma_frame_from_sound(b, 0);
    }
    let tail = buffer.split_off(keep);
    *buffer = tail;
    out
}

/// Calculate the CRC-8 checksum of `data` (the table-driven LD19 checksum).
pub fn calc_crc8(data: &[u8]) -> (crc: u8)
    ensures
        crc == crc8_spec(data@),
{
    calculate_crc8(data)
}

/// Whether `packet` holds at least 47 bytes whose byte 46 is the checksum of the
/// 46 before it.
pub fn validate_crc(packet: &[u8]) -> (ok: bool)
    ensures
        ok == checksum_ok(packet@),
{
    if packet.len() < PACKET_SIZE {
        return false;
    }
    packet_checksum_ok(packet)
}

/// Decode the fields of an already delimited packet. The checksum is not checked.
pub fn decode_packet(frame: &[u8]) -> (res: Result<LidarPacket, DriverError>)
    ensures
        frame@.len() < PACKET_SIZE ==> res == Err::<LidarPacket, DriverError>(
            DriverError::FrameTooShort,
        ),
        frame@.len() >= PACKET_SIZE && !has_header(frame@) ==> res == Err::<
            LidarPacket,
            DriverError,
        >(DriverError::UnexpectedHeader),
        frame@.len() >= PACKET_SIZE && has_header(frame@) ==> res == Ok::<
            LidarPacket,
            DriverError,
        >(packet_fields(frame@)),
{
    if frame.len() < PACKET_SIZE {
        return Err(DriverError::FrameTooShort);
    }
    if frame[0] != PKG_HEADER || frame[1] != PKG_VER_LEN {
        return Err(DriverError::UnexpectedHeader);
    }
    Ok(read_packet_fields(frame))
}

} // verus!
