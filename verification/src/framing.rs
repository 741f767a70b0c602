//! Length-prefixed message framing for bidirectional streams: a 4-byte
//! big-endian length followed by exactly that many payload bytes, with a
//! caller-supplied maximum on the receive side. Includes per-stream byte
//! counters and an in-memory loopback stream that exercises the framing
//! end to end.

use crate::errors::P2PError;
use vstd::prelude::*;
use vstd::string::StringExecFns;

verus! {

/// The 4-byte big-endian encoding of a u32.
pub open spec fn u32_be_bytes(n: u32) -> Seq<u8> {
    seq![
        (n >> 24) as u8,
        ((n >> 16) & 0xFF) as u8,
        ((n >> 8) & 0xFF) as u8,
        (n & 0xFF) as u8,
    ]
}

/// The u32 encoded by 4 big-endian bytes.
pub open spec fn u32_from_be(b0: u8, b1: u8, b2: u8, b3: u8) -> u32 {
    ((b0 as u32) << 24) | ((b1 as u32) << 16) | ((b2 as u32) << 8) | (b3 as u32)
}

/// Big-endian round trip: decoding the encoding of any u32 gives it back.
pub proof fn lemma_u32_be_roundtrip(n: u32)
    ensures
        u32_from_be(
            u32_be_bytes(n)[0],
            u32_be_bytes(n)[1],
            u32_be_bytes(n)[2],
            u32_be_bytes(n)[3],
        ) == n,
{
    let b0 = (n >> 24) as u8;
    let b1 = ((n >> 16) & 0xFF) as u8;
    let b2 = ((n >> 8) & 0xFF) as u8;
    let b3 = (n & 0xFF) as u8;
    assert(((b0 as u32) << 24) | ((b1 as u32) << 16) | ((b2 as u32) << 8) | (b3 as u32)
        == n) by (bit_vector)
        requires
            b0 == (n >> 24) as u8 && b1 == ((n >> 16) & 0xFF) as u8 && b2 == ((n >> 8)
                & 0xFF) as u8 && b3 == (n & 0xFF) as u8,
    ;
}

/// A framed message: the payload length as 4 big-endian bytes, then the
/// payload.
pub open spec fn frame_bytes(data: Seq<u8>) -> Seq<u8> {
    u32_be_bytes(data.len() as u32) + data
}

/// Frame a message for the wire.
pub fn frame_message(data: &[u8]) -> (r: Vec<u8>)
    requires
        data@.len() <= u32::MAX,
    ensures
        r@ == frame_bytes(data@),
        r@.len() == data@.len() + 4,
{
    let len = data.len() as u32;
    let mut out: Vec<u8> = Vec::new();
    out.push((len >> 24) as u8);
    out.push(((len >> 16) & 0xFF) as u8);
    out.push(((len >> 8) & 0xFF) as u8);
    out.push((len & 0xFF) as u8);
    let mut i: usize = 0;
    proof {
        assert(out@ =~= u32_be_bytes(len));
    }
    while i < data.len()
        invariant
            i <= data@.len(),
            data@.len() <= u32::MAX,
            out@ == u32_be_bytes(data@.len() as u32) + data@.subrange(0, i as int),
        decreases data@.len() - i,
    {
        out.push(data[i]);
        proof {
            assert(out@ =~= u32_be_bytes(data@.len() as u32) + data@.subrange(0, i + 1));
        }
        i = i + 1;
    }
    proof {
        assert(out@ =~= frame_bytes(data@));
    }
    out
}

/// Statistics for a bidirectional stream.
#[derive(Debug)]
pub struct StreamStats {
    /// Bytes sent through this stream
    pub bytes_sent: u64,
    /// Bytes received through this stream
    pub bytes_received: u64,
}

impl StreamStats {
    /// Fresh statistics: nothing counted.
    pub fn new() -> (r: Self)
        ensures
            r.bytes_sent == 0,
            r.bytes_received == 0,
    {
        Self { bytes_sent: 0, bytes_received: 0 }
    }

    /// Total bytes sent.
    pub fn get_bytes_sent(&self) -> (r: u64)
        ensures
            r == self.bytes_sent,
    {
        self.bytes_sent
    }

    /// Total bytes received.
    pub fn get_bytes_received(&self) -> (r: u64)
        ensures
            r == self.bytes_received,
    {
        self.bytes_received
    }

    /// Count sent bytes (saturating).
    pub fn add_bytes_sent(&mut self, bytes: u64)
        ensures
            old(self).bytes_sent + bytes <= u64::MAX ==> final(self).bytes_sent == old(
                self,
            ).bytes_sent + bytes,
            final(self).bytes_received == old(self).bytes_received,
    {
        self.bytes_sent = if self.bytes_sent <= u64::MAX - bytes {
            self.bytes_sent + bytes
        } else {
            u64::MAX
        };
    }

    /// Count received bytes (saturating).
    pub fn add_bytes_received(&mut self, bytes: u64)
        ensures
            old(self).bytes_received + bytes <= u64::MAX ==> final(self).bytes_received == old(
                self,
            ).bytes_received + bytes,
            final(self).bytes_sent == old(self).bytes_sent,
    {
        self.bytes_received = if self.bytes_received <= u64::MAX - bytes {
            self.bytes_received + bytes
        } else {
            u64::MAX
        };
    }
}

impl Default for StreamStats {
    /// Fresh statistics: nothing counted.
    fn default() -> (r: Self)
        ensures
            r.bytes_sent == 0,
            r.bytes_received == 0,
    {
        Self::new()
    }
}

/// Length-prefixed message transport over a byte stream.
pub trait StreamExt: Sized {
    /// The framed bytes queued on the outgoing side.
    spec fn spec_outgoing(&self) -> Seq<u8>;

    /// The framed bytes waiting on the incoming side.
    spec fn spec_incoming(&self) -> Seq<u8>;

    /// Send one length-prefixed message: the frame joins the outgoing
    /// bytes.
    fn send_message(&mut self, data: &[u8]) -> (r: Result<(), P2PError>)
        requires
            data@.len() <= u32::MAX,
        ensures
            r is Ok ==> final(self).spec_outgoing() == old(self).spec_outgoing() + frame_bytes(
                data@,
            );

    /// Receive one length-prefixed message of at most `max_size` bytes:
    /// the frame leaves the incoming bytes.
    fn recv_message(&mut self, max_size: usize) -> (r: Result<Vec<u8>, P2PError>)
        ensures
            r matches Ok(data) ==> data@.len() <= max_size && old(self).spec_incoming()
                == frame_bytes(data@) + final(self).spec_incoming();
}

/// An in-memory loopback stream: what is sent is what is received.
pub struct PipeStream {
    queue: Vec<u8>,
    /// Byte counters for the stream
    pub stats: StreamStats,
}

impl PipeStream {
    /// A fresh loopback stream with nothing queued.
    pub fn new() -> (r: Self)
        ensures
            r.spec_outgoing().len() == 0,
    {
        Self { queue: Vec::new(), stats: StreamStats::new() }
    }
}

impl StreamExt for PipeStream {
    /// The loopback's single queue, seen from the sending side.
    closed spec fn spec_outgoing(&self) -> Seq<u8> {
        self.queue@
    }

    /// The loopback's single queue, seen from the receiving side.
    closed spec fn spec_incoming(&self) -> Seq<u8> {
        self.queue@
    }

    fn send_message(&mut self, data: &[u8]) -> (r: Result<(), P2PError>)
        ensures
            r is Ok,
    {
        let frame = frame_message(data);
        let mut i: usize = 0;
        let ghost prev = self.queue@;
        while i < frame.len()
            invariant
                i <= frame@.len(),
                self.queue@ == prev + frame@.subrange(0, i as int),
                self.stats == old(self).stats,
            decreases frame@.len() - i,
        {
            self.queue.push(frame[i]);
            proof {
                assert(self.queue@ =~= prev + frame@.subrange(0, i + 1));
            }
            i = i + 1;
        }
        proof {
            assert(self.queue@ =~= prev + frame@);
        }
        self.stats.add_bytes_sent(frame.len() as u64);
        Ok(())
    }

    fn recv_message(&mut self, max_size: usize) -> (r: Result<Vec<u8>, P2PError>)
        ensures
            r is Err ==> final(self).spec_incoming() == old(self).spec_incoming(),
    {
        if self.queue.len() < 4 {
            return Err(P2PError::Stream("Message truncated".to_owned()));
        }
        let len = u32_decode(self.queue[0], self.queue[1], self.queue[2], self.queue[3]);
        if len as usize > max_size {
            return Err(P2PError::Stream("Message too large".to_owned()));
        }
        if self.queue.len() - 4 < len as usize {
            return Err(P2PError::Stream("Message truncated".to_owned()));
        }
        let n = len as usize;
        let mut data: Vec<u8> = Vec::new();
        let mut i: usize = 0;
        while i < n
            invariant
                n + 4 <= self.queue@.len(),
                self.queue@.len() <= usize::MAX,
                i <= n,
                data@ == self.queue@.subrange(4, 4 + i),
                self.queue@ == old(self).queue@,
                self.stats == old(self).stats,
            decreases n - i,
        {
            data.push(self.queue[4 + i]);
            proof {
                assert(data@ =~= self.queue@.subrange(4, 4 + i + 1));
            }
            i = i + 1;
        }
        let ghost before = self.queue@;
        let rest = self.queue.split_off(4 + n);
        self.queue = rest;
        self.stats.add_bytes_received(n as u64 + 4);
        proof {
            assert(before == frame_bytes(data@) + self.queue@) by {
                assert(data@.len() == len);
                lemma_u32_be_roundtrip_back(
                    before[0],
                    before[1],
                    before[2],
                    before[3],
                    len,
                );
                assert(u32_be_bytes(len)[0] == before[0] && u32_be_bytes(len)[1] == before[1]
                    && u32_be_bytes(len)[2] == before[2] && u32_be_bytes(len)[3] == before[3]);
                assert(before =~= frame_bytes(data@) + self.queue@);
            }
        }
        Ok(data)
    }
}

/// Decode 4 big-endian bytes into a u32.
fn u32_decode(b0: u8, b1: u8, b2: u8, b3: u8) -> (r: u32)
    ensures
        r == u32_from_be(b0, b1, b2, b3),
{
    ((b0 as u32) << 24) | ((b1 as u32) << 16) | ((b2 as u32) << 8) | (b3 as u32)
}

/// The bytes of a decoded u32 are exactly the bytes decoded: big-endian
/// encoding inverts decoding.
proof fn lemma_u32_be_roundtrip_back(b0: u8, b1: u8, b2: u8, b3: u8, n: u32)
    requires
        n == u32_from_be(b0, b1, b2, b3),
    ensures
        u32_be_bytes(n)[0] == b0,
        u32_be_bytes(n)[1] == b1,
        u32_be_bytes(n)[2] == b2,
        u32_be_bytes(n)[3] == b3,
{
    assert((n >> 24) as u8 == b0 && ((n >> 16) & 0xFF) as u8 == b1 && ((n >> 8)
        & 0xFF) as u8 == b2 && (n & 0xFF) as u8 == b3) by (bit_vector)
        requires
            n == ((b0 as u32) << 24) | ((b1 as u32) << 16) | ((b2 as u32) << 8) | (b3 as u32),
    ;
}

} // verus!
