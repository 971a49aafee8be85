//! Length-prefixed framing: each message is a 4-byte little-endian length
//! followed by exactly that many payload bytes.
use vstd::prelude::*;

use crate::error::FrameError;

verus! {

/// Bytes in a length prefix.
pub const PREFIX_LEN: usize = 4;

/// The four little-endian bytes of `n`.
pub open spec fn le_bytes(n: int) -> Seq<u8> {
    seq![(n % 256) as u8, (n / 256 % 256) as u8, (n / 65536 % 256) as u8, (n / 16777216 % 256) as u8]
}

/// The number that the four little-endian bytes at the front of `b` denote.
pub open spec fn le_value(b: Seq<u8>) -> int {
    b[0] + 256 * b[1] + 65536 * b[2] + 16777216 * b[3]
}

/// `b` begins with a whole frame.
pub open spec fn holds_frame(b: Seq<u8>) -> bool {
    b.len() >= PREFIX_LEN && b.len() - PREFIX_LEN >= le_value(b)
}

/// Where the frame at the front of `b` ends.
pub open spec fn frame_end(b: Seq<u8>) -> int {
    PREFIX_LEN + le_value(b)
}

/// The frame that carries `payload`: its length, then its bytes.
pub fn encode_frame(payload: &[u8]) -> (r: Vec<u8>)
    requires
        payload@.len() <= u32::MAX,
    ensures
        r@ == le_bytes(payload@.len() as int) + payload@,
{
    let n = payload.len();
    let mut out: Vec<u8> = Vec::new();
    out.push((n % 256) as u8);
    out.push((n / 256 % 256) as u8);
    out.push((n / 65536 % 256) as u8);
    out.push((n / 16777216 % 256) as u8);
    let mut i: usize = 0;
    while i < n
        invariant
            n == payload@.len(),
            i <= n,
            out@ == le_bytes(n as int) + payload@.take(i as int),
        decreases n - i,
    {
        out.push(payload[i]);
        assert(payload@.take(i + 1) =~= payload@.take(i as int).push(payload@[i as int]));
        assert(out@ =~= le_bytes(n as int) + payload@.take(i + 1));
        i = i + 1;
    }
    assert(payload@.take(n as int) =~= payload@);
    out
}

/// The payload length that the prefix at the front of `prefix` announces.
pub fn frame_length(prefix: &[u8]) -> (r: u32)
    requires
        prefix@.len() >= PREFIX_LEN,
    ensures
        r == le_value(prefix@),
{
    prefix[0] as u32 + 256 * (prefix[1] as u32) + 65536 * (prefix[2] as u32) + 16777216 * (
    prefix[3] as u32)
}

/// `v[from..to]` as a new vector.
fn copy_range(v: &Vec<u8>, from: usize, to: usize) -> (r: Vec<u8>)
    requires
        from <= to <= v@.len(),
    ensures
        r@ == v@.subrange(from as int, to as int),
{
    let mut out: Vec<u8> = Vec::new();
    let mut i: usize = from;
    while i < to
        invariant
            from <= i <= to <= v@.len(),
            out@ == v@.subrange(from as int, i as int),
        decreases to - i,
    {
        out.push(v[i]);
        assert(out@ =~= v@.subrange(from as int, i + 1));
        i = i + 1;
    }
    out
}

/// Collects the bytes of a stream and cuts them into frames.
pub struct FrameReader {
    buffer: Vec<u8>,
}

impl View for FrameReader {
    type V = Seq<u8>;

    /// The bytes received and not yet returned in a frame.
    closed spec fn view(&self) -> Seq<u8> {
        self.buffer@
    }
}

impl FrameReader {
    /// A reader that has received nothing.
    pub fn new() -> (r: FrameReader)
        ensures
            r@ == Seq::<u8>::empty(),
    {
        FrameReader { buffer: Vec::new() }
    }

    /// Takes in bytes that the stream delivered.
    pub fn push(&mut self, chunk: &[u8])
        ensures
            final(self)@ == old(self)@ + chunk@,
    {
        let mut i: usize = 0;
        while i < chunk.len()
            invariant
                i <= chunk@.len(),
                self@ == old(self)@ + chunk@.take(i as int),
            decreases chunk@.len() - i,
        {
            self.buffer.push(chunk[i]);
            assert(self@ =~= old(self)@ + chunk@.take(i + 1));
            i = i + 1;
        }
        assert(chunk@.take(chunk@.len() as int) =~= chunk@);
    }

    /// How many more bytes the frame being received needs: the rest of the
    /// prefix while it is incomplete, else the rest of the payload; 0 when a
    /// whole frame is here.
    pub fn bytes_wanted(&self) -> (r: usize)
        ensures
            self@.len() < PREFIX_LEN ==> r == PREFIX_LEN - self@.len(),
            self@.len() >= PREFIX_LEN && !holds_frame(self@) ==> r == frame_end(self@)
                - self@.len(),
            holds_frame(self@) ==> r == 0,
    {
        let n = self.buffer.len();
        if n < PREFIX_LEN {
            return PREFIX_LEN - n;
        }
        let want = frame_length(self.buffer.as_slice()) as usize;
        if n - PREFIX_LEN >= want {
            0
        } else {
            want - (n - PREFIX_LEN)
        }
    }

    /// Removes and returns the payload of the frame at the front of what was
    /// received, once it is whole.
    pub fn next_frame(&mut self) -> (r: Option<Vec<u8>>)
        ensures
            holds_frame(old(self)@) ==> (r matches Some(p) && p@ == old(self)@.subrange(
                PREFIX_LEN as int,
                frame_end(old(self)@),
            ) && final(self)@ == old(self)@.skip(frame_end(old(self)@))),
            !holds_frame(old(self)@) ==> r is None && final(self)@ == old(self)@,
    {
        let n = self.buffer.len();
        if n < PREFIX_LEN {
            return None;
        }
        let want = frame_length(self.buffer.as_slice()) as usize;
        if n - PREFIX_LEN < want {
            return None;
        }
        let end = PREFIX_LEN + want;
        let payload = copy_range(&self.buffer, PREFIX_LEN, end);
        let rest = copy_range(&self.buffer, end, n);
        self.buffer = rest;
        assert(self@ =~= old(self)@.skip(frame_end(old(self)@)));
        Some(payload)
    }

    /// The stream has closed: the next whole frame, or `ConnectionError`
    /// when the stream ended before one was complete.
    pub fn finish(&mut self) -> (r: Result<Vec<u8>, FrameError>)
        ensures
            holds_frame(old(self)@) ==> (r matches Ok(p) && p@ == old(self)@.subrange(
                PREFIX_LEN as int,
                frame_end(old(self)@),
            ) && final(self)@ == old(self)@.skip(frame_end(old(self)@))),
            !holds_frame(old(self)@) ==> r == Err::<Vec<u8>, FrameError>(
                FrameError::ConnectionError,
            ) && final(self)@ == old(self)@,
    {
        match self.next_frame() {
            Some(p) => Ok(p),
            None => Err(FrameError::ConnectionError),
        }
    }
}

} // verus!
