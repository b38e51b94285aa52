//! Byte-by-byte packet assembly of the LiDAR packet parser: a state machine that
//! waits for the header, then the version byte, then collects a full packet.

use vstd::prelude::*;
use crate::packet::{spec_from_bytes, LidarPacket, PACKET_SIZE, PKG_HEADER, PKG_VER_LEN};

verus! {

/// Packet parsing state.
#[derive(Debug, Clone, Copy, PartialEq, Eq)]
pub enum ParserState {
    /// Waiting for the header byte.
    Header,
    /// Header seen; waiting for the version/length byte.
    VerLen,
    /// Collecting packet bytes; the count of bytes collected so far.
    Data(usize),
}

/// The packet bytes collected so far and the parsing state.
#[derive(Debug, Clone)]
pub struct PacketAssembler {
    pub state: ParserState,
    pub buffer: Vec<u8>,
}

impl PacketAssembler {
    /// Well-formedness: after the header the buffer holds it; while collecting,
    /// the count is the number of bytes held, from 2 up to a full packet.
    pub open spec fn wf(&self) -> bool {
        match self.state {
            ParserState::Header => true,
            ParserState::VerLen => self.buffer@ == seq![PKG_HEADER],
            ParserState::Data(c) => c == self.buffer@.len() && 2 <= c < PACKET_SIZE
                && self.buffer@[0] == PKG_HEADER && self.buffer@[1] == PKG_VER_LEN,
        }
    }

    /// Waiting for a header, with nothing collected.
    pub fn new() -> (a: Self)
        ensures
            a.wf(),
            a.state == ParserState::Header,
            a.buffer@ == Seq::<u8>::empty(),
    {
        PacketAssembler { state: ParserState::Header, buffer: Vec::new() }
    }

    /// Feed one byte; `true` when it completes a packet, whose 47 bytes are then
    /// in the buffer (the state is back to waiting for a header).
    pub fn process_byte(&mut self, byte: u8) -> (complete: bool)
        requires
            old(self).wf(),
        ensures
            final(self).wf(),
            match old(self).state {
                ParserState::Header => !complete && if byte == PKG_HEADER {
                    final(self).state == ParserState::VerLen && final(self).buffer@ == seq![byte]
                } else {
                    *final(self) == *old(self)
                },
                ParserState::VerLen => !complete && if byte == PKG_VER_LEN {
                    final(self).state == ParserState::Data(2) && final(self).buffer@ == old(
                        self,
                    ).buffer@.push(byte)
                } else {
                    final(self).state == ParserState::Header && final(self).buffer@ == old(
                        self,
                    ).buffer@
                },
                ParserState::Data(c) => final(self).buffer@ == old(self).buffer@.push(byte) && (
                complete <==> c + 1 >= PACKET_SIZE) && (complete ==> final(self).state
                    == ParserState::Header) && (!complete ==> final(self).state
                    == ParserState::Data((c + 1) as usize)),
            },
            (final(self).state, final(self).buffer@, complete) == assembler_step(
                old(self).state,
                old(self).buffer@,
                byte,
            ),
    {
        match self.state {
            ParserState::Header => {
                if byte == PKG_HEADER {
                    self.buffer.clear();
                    self.buffer.push(byte);
                    self.state = ParserState::VerLen;
                    assert(self.buffer@ =~= seq![byte]);
                }
                false
            },
            ParserState::VerLen => {
                if byte == PKG_VER_LEN {
                    self.buffer.push(byte);
                    self.state = ParserState::Data(2);
                    false
                } else {
                    self.state = ParserState::Header;
                    false
                }
            },
            ParserState::Data(count) => {
                self.buffer.push(byte);
                if self.buffer.len() >= PACKET_SIZE {
                    self.state = ParserState::Header;
                    true
                } else {
                    self.state = ParserState::Data(count + 1);
                    false
                }
            },
        }
    }

    /// Feed a run of bytes: every packet completed on the way whose checksum
    /// matches is returned, in order (see `feed_spec`); after each completed
    /// packet the assembler waits for a new header.
    pub fn feed_bytes(&mut self, data: &[u8]) -> (packets: Vec<LidarPacket>)
        requires
            old(self).wf(),
        ensures
            final(self).wf(),
            packets@ == feed_spec(old(self).state, old(self).buffer@, data@).0,
            final(self).state == feed_spec(old(self).state, old(self).buffer@, data@).1,
            final(self).buffer@ == feed_spec(old(self).state, old(self).buffer@, data@).2,
    {
        let ghost s0 = self.state;
        let ghost b0 = self.buffer@;
        let mut out: Vec<LidarPacket> = Vec::new();
        let mut i: usize = 0;
        assert(data@.take(0) =~= Seq::<u8>::empty());
        while i < data.len()
            invariant
                self.wf(),
                i <= data@.len(),
                out@ == feed_spec(s0, b0, data@.take(i as int)).0,
                self.state == feed_spec(s0, b0, data@.take(i as int)).1,
                self.buffer@ == feed_spec(s0, b0, data@.take(i as int)).2,
            decreases data@.len() - i,
        {
            assert(data@.take(i + 1).drop_last() =~= data@.take(i as int));
            assert(data@.take(i + 1).last() == data@[i as int]);
            if self.process_byte(data[i]) {
                match LidarPacket::from_bytes(self.buffer.as_slice()) {
                    Some(p) => {
                        out.push(p);
                    },
                    None => {},
                }
                self.reset();
            }
            i = i + 1;
        }
        assert(data@.take(data@.len() as int) =~= data@);
        out
    }

    /// Drop the collected bytes and wait for a new header.
    pub fn reset(&mut self)
        ensures
            final(self).wf(),
            final(self).state == ParserState::Header,
            final(self).buffer@ == Seq::<u8>::empty(),
    {
        self.buffer.clear();
        self.state = ParserState::Header;
    }
}

/// Pause in milliseconds of the serial reading loop after `consecutive_empty`
/// reads in a row that returned no data: 1 ms for the first few, 5 ms up to 20,
/// then 10 ms.
pub fn idle_sleep_ms(consecutive_empty: u32) -> (ms: u64)
    ensures
        ms == if consecutive_empty < 5 {
            1u64
        } else if consecutive_empty < 20 {
            5u64
        } else {
            10u64
        },
{
    if consecutive_empty < 5 {
        1
    } else if consecutive_empty < 20 {
        5
    } else {
        10
    }
}

/// One byte through the assembler from state `st` with collected bytes `buf`:
/// the next state, the collected bytes, and whether a packet was completed.
pub open spec fn assembler_step(st: ParserState, buf: Seq<u8>, byte: u8) -> (ParserState, Seq<u8>, bool) {
    match st {
        ParserState::Header => if byte == PKG_HEADER {
            (ParserState::VerLen, seq![byte], false)
        } else {
            (st, buf, false)
        },
        ParserState::VerLen => if byte == PKG_VER_LEN {
            (ParserState::Data(2), buf.push(byte), false)
        } else {
            (ParserState::Header, buf, false)
        },
        ParserState::Data(c) => if buf.len() + 1 >= PACKET_SIZE {
            (ParserState::Header, buf.push(byte), true)
        } else {
            (ParserState::Data((c + 1) as usize), buf.push(byte), false)
        },
    }
}

/// A run of bytes through the assembler from state `st` with collected bytes
/// `buf`: the packets completed with a matching checksum, in order, and the
/// final state and collected bytes. After a completed packet (kept or not)
/// the assembler starts again from an empty buffer, waiting for a header.
pub open spec fn feed_spec(st: ParserState, buf: Seq<u8>, data: Seq<u8>) -> (Seq<LidarPacket>, ParserState, Seq<u8>)
    decreases data.len(),
{
    if data.len() == 0 {
        (Seq::empty(), st, buf)
    } else {
        let before = feed_spec(st, buf, data.drop_last());
        let (st2, b2, complete) = assembler_step(before.1, before.2, data.last());
        if complete {
            match spec_from_bytes(b2) {
                Some(p) => (before.0.push(p), ParserState::Header, Seq::empty()),
                None => (before.0, ParserState::Header, Seq::empty()),
            }
        } else {
            (before.0, st2, b2)
        }
    }
}

/// Feeding bytes in two runs gives the same packets, in the same order, and
/// the same final state as feeding them in one run.
pub proof fn lemma_feed_concat(st: ParserState, buf: Seq<u8>, a: Seq<u8>, b: Seq<u8>)
    ensures
        ({
            let r1 = feed_spec(st, buf, a);
            let r2 = feed_spec(r1.1, r1.2, b);
            let r = feed_spec(st, buf, a + b);
            &&& r.0 == r1.0 + r2.0
            &&& r.1 == r2.1
            &&& r.2 == r2.2
        }),
    decreases b.len(),
{
    let r1 = feed_spec(st, buf, a);
    if b.len() == 0 {
        assert(a + b =~= a);
        assert(r1.0 + Seq::<LidarPacket>::empty() =~= r1.0);
    } else {
        lemma_feed_concat(st, buf, a, b.drop_last());
        assert((a + b).drop_last() =~= a + b.drop_last());
        assert((a + b).last() == b.last());
        let r2p = feed_spec(r1.1, r1.2, b.drop_last());
        let (st2, b2, complete) = assembler_step(r2p.1, r2p.2, b.last());
        if complete {
            if let Some(p) = spec_from_bytes(b2) {
                assert((r1.0 + r2p.0).push(p) =~= r1.0 + r2p.0.push(p));
            }
        }
    }
}

/// The bytes of a packet completed by `process_byte` (the collected bytes and the
/// last byte) number exactly 47 and start with the header and the version byte.
pub proof fn lemma_completed_packet_shape(a: PacketAssembler, byte: u8)
    requires
        a.wf(),
        a.state matches ParserState::Data(c) && c + 1 >= PACKET_SIZE,
    ensures
        a.buffer@.push(byte).len() == PACKET_SIZE,
        a.buffer@.push(byte)[0] == PKG_HEADER,
        a.buffer@.push(byte)[1] == PKG_VER_LEN,
{
}

} // verus!
