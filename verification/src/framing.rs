//! Length-prefixed framing of packets on a byte stream, and the buffer that
//! holds bytes on their way to or from a socket.
//!
//! A frame is a header of `HEADER_SIZE` bytes holding the payload length as a
//! little-endian `u32`, followed by the payload.

use vstd::prelude::*;
use vstd::slice::slice_subrange;

verus! {

/// Size of the length header in front of every frame.
pub const HEADER_SIZE: usize = 4;

/// The number that four bytes stand for, least significant byte first.
pub open spec fn le_value(b0: u8, b1: u8, b2: u8, b3: u8) -> nat {
    (b0 as nat) + 256 * (b1 as nat) + 65536 * (b2 as nat) + 16777216 * (b3 as nat)
}

/// The little-endian bytes of `x`.
pub open spec fn le_bytes(x: nat) -> Seq<u8> {
    seq![(x % 256) as u8, ((x / 256) % 256) as u8, ((x / 65536) % 256) as u8, ((x / 16777216) % 256) as u8]
}

/// The length that the header at the front of `bytes` announces.
pub open spec fn header_value(bytes: Seq<u8>) -> nat
    recommends
        bytes.len() >= HEADER_SIZE,
{
    le_value(bytes[0], bytes[1], bytes[2], bytes[3])
}

/// The frame that carries `payload`.
pub open spec fn frame_of(payload: Seq<u8>) -> Seq<u8> {
    le_bytes(payload.len()) + payload
}

/// Whether `bytes` starts with a complete frame.
pub open spec fn has_frame(bytes: Seq<u8>) -> bool {
    bytes.len() >= HEADER_SIZE && bytes.len() - HEADER_SIZE >= header_value(bytes)
}

/// The payload of the frame at the front of `bytes`.
pub open spec fn frame_payload(bytes: Seq<u8>) -> Seq<u8>
    recommends
        has_frame(bytes),
{
    bytes.subrange(HEADER_SIZE as int, HEADER_SIZE + header_value(bytes))
}

/// What is left of `bytes` behind the frame at its front.
pub open spec fn after_frame(bytes: Seq<u8>) -> Seq<u8>
    recommends
        has_frame(bytes),
{
    bytes.subrange(HEADER_SIZE + header_value(bytes), bytes.len() as int)
}

proof fn lemma_le_round_trip(x: nat)
    requires
        x <= u32::MAX,
    ensures
        le_bytes(x).len() == HEADER_SIZE,
        le_value(le_bytes(x)[0], le_bytes(x)[1], le_bytes(x)[2], le_bytes(x)[3]) == x,
{
    let b0 = x % 256;
    let q0 = x / 256;
    let b1 = q0 % 256;
    let q1 = q0 / 256;
    let b2 = q1 % 256;
    let q2 = q1 / 256;
    vstd::arithmetic::div_mod::lemma_fundamental_div_mod(x as int, 256);
    vstd::arithmetic::div_mod::lemma_fundamental_div_mod(q0 as int, 256);
    vstd::arithmetic::div_mod::lemma_fundamental_div_mod(q1 as int, 256);
    assert(q2 < 256) by (nonlinear_arith)
        requires
            x <= u32::MAX,
            q0 == x / 256,
            q1 == q0 / 256,
            q2 == q1 / 256,
    ;
    assert(x / 65536 == q1) by (nonlinear_arith)
        requires
            q0 == x / 256,
            q1 == q0 / 256,
    ;
    assert(x / 16777216 == q2) by (nonlinear_arith)
        requires
            q0 == x / 256,
            q1 == q0 / 256,
            q2 == q1 / 256,
    ;
    assert(q2 % 256 == q2);
}

/// The bytes that stand in front of a frame: they announce a payload length.
/// The header's bytes are reserved in a frame under construction when it is
/// made, and filled in once the payload length is known.
pub struct Header {
    offset: usize,
}

impl Header {
    /// Where in its frame the header's bytes stand.
    pub closed spec fn at(&self) -> nat {
        self.offset as nat
    }

    /// Reserves `HEADER_SIZE` zero bytes at the end of `buffer` for a header
    /// that is written later.
    pub fn new(buffer: &mut Vec<u8>) -> (h: Self)
        ensures
            final(buffer)@ == old(buffer)@ + seq![0u8, 0u8, 0u8, 0u8],
            h.at() == old(buffer)@.len(),
    {
        let offset = buffer.len();
        buffer.push(0);
        buffer.push(0);
        buffer.push(0);
        buffer.push(0);
        assert(buffer@ =~= old(buffer)@ + seq![0u8, 0u8, 0u8, 0u8]);
        Header { offset }
    }

    /// Writes `len` into the reserved bytes; `Err` when `len` does not fit in
    /// a `u32`, and then the buffer is left as it was.
    pub fn write(self, buffer: &mut Vec<u8>, len: usize) -> (r: Result<(), ()>)
        requires
            self.at() + HEADER_SIZE <= old(buffer)@.len(),
        ensures
            len <= u32::MAX ==> r is Ok && final(buffer)@ == old(buffer)@.subrange(0, self.at() as int)
                + le_bytes(len as nat)
                + old(buffer)@.subrange(self.at() + HEADER_SIZE, old(buffer)@.len() as int),
            len > u32::MAX ==> r is Err && final(buffer)@ == old(buffer)@,
    {
        if len > 0xffff_ffff {
            return Err(());
        }
        let b0: u8 = (len % 256) as u8;
        let b1: u8 = ((len / 256) % 256) as u8;
        let b2: u8 = ((len / 65536) % 256) as u8;
        let b3: u8 = ((len / 16777216) % 256) as u8;
        let at = self.offset;
        let blen = buffer.len();
        assert(at + 4 <= blen);
        buffer.set(at, b0);
        buffer.set(at + 1, b1);
        buffer.set(at + 2, b2);
        buffer.set(at + 3, b3);
        assert(buffer@ =~= old(buffer)@.subrange(0, at as int) + le_bytes(len as nat)
            + old(buffer)@.subrange(at + HEADER_SIZE, old(buffer)@.len() as int));
        Ok(())
    }

    /// Reads the length that the header at the front of `buffer` announces,
    /// and moves `buffer` past the header; `None`, with `buffer` left alone,
    /// when it is shorter than a header.
    pub fn read(buffer: &mut &[u8]) -> (r: Option<usize>)
        ensures
            old(buffer)@.len() < HEADER_SIZE ==> r is None && final(buffer)@ == old(buffer)@,
            old(buffer)@.len() >= HEADER_SIZE ==> r == Some(header_value(old(buffer)@) as usize)
                && final(buffer)@ == old(buffer)@.subrange(HEADER_SIZE as int, old(buffer)@.len() as int),
    {
        let bytes: &[u8] = *buffer;
        if bytes.len() < HEADER_SIZE {
            return None;
        }
        let v: u32 = bytes[0] as u32 + 256 * (bytes[1] as u32) + 65536 * (bytes[2] as u32)
            + 16777216 * (bytes[3] as u32);
        *buffer = slice_subrange(bytes, HEADER_SIZE, bytes.len());
        Some(v as usize)
    }
}

/// Builds the frame that carries `payload`; `None` when the payload is too
/// long for its length to fit in a header.
pub fn encode_frame(payload: &[u8]) -> (r: Option<Vec<u8>>)
    ensures
        payload@.len() <= u32::MAX ==> r is Some && r->Some_0@ == frame_of(payload@),
        payload@.len() > u32::MAX ==> r is None,
{
    let mut frame: Vec<u8> = Vec::new();
    let header = Header::new(&mut frame);
    let mut i: usize = 0;
    while i < payload.len()
        invariant
            i <= payload@.len(),
            frame@ == seq![0u8, 0u8, 0u8, 0u8] + payload@.subrange(0, i as int),
        decreases payload@.len() - i,
    {
        frame.push(payload[i]);
        i = i + 1;
        assert(frame@ =~= seq![0u8, 0u8, 0u8, 0u8] + payload@.subrange(0, i as int));
    }
    assert(payload@.subrange(0, payload@.len() as int) =~= payload@);
    match header.write(&mut frame, payload.len()) {
        Ok(()) => {
            assert(frame@ =~= frame_of(payload@));
            Some(frame)
        },
        Err(()) => None,
    }
}

/// Finds the frame at the front of `bytes`: the range of its payload, or
/// `None` while the frame is not complete.
pub fn find_frame(bytes: &[u8]) -> (r: Option<(usize, usize)>)
    ensures
        has_frame(bytes@) <==> r is Some,
        r matches Some((start, end)) ==> start == HEADER_SIZE && end == HEADER_SIZE + header_value(bytes@)
            && end <= bytes@.len(),
{
    let total: usize = bytes.len();
    let mut rest: &[u8] = bytes;
    match Header::read(&mut rest) {
        Some(len) => {
            assert(rest@.len() + HEADER_SIZE == total);
            if rest.len() >= len {
                Some((HEADER_SIZE, HEADER_SIZE + len))
            } else {
                None
            }
        },
        None => None,
    }
}

/// Framing law: the frame built for a payload, followed by any bytes, is
/// recognized as a complete frame whose payload is that payload, and what
/// follows the frame is left over.
pub proof fn lemma_frame_round_trip(payload: Seq<u8>, rest: Seq<u8>)
    requires
        payload.len() <= u32::MAX,
    ensures
        has_frame(frame_of(payload) + rest),
        frame_payload(frame_of(payload) + rest) == payload,
        after_frame(frame_of(payload) + rest) == rest,
{
    lemma_le_round_trip(payload.len());
    let bytes = frame_of(payload) + rest;
    assert(header_value(bytes) == payload.len());
    assert(frame_payload(bytes) =~= payload);
    assert(after_frame(bytes) =~= rest);
}

/// The frames of `payloads`, one after the other.
pub open spec fn frames_of(payloads: Seq<Seq<u8>>) -> Seq<u8>
    decreases payloads.len(),
{
    if payloads.len() == 0 {
        Seq::empty()
    } else {
        frame_of(payloads[0]) + frames_of(payloads.drop_first())
    }
}

/// Framing law for a stream: when the frames of several payloads follow one
/// another, with any bytes behind them, the first complete frame is that of
/// the first payload, and what follows it is the frames of the others: taking
/// frames off the front gives back the payloads in order, none lost or
/// repeated.
pub proof fn lemma_frames_stream(payloads: Seq<Seq<u8>>, rest: Seq<u8>)
    requires
        payloads.len() > 0,
        forall|i: int| 0 <= i < payloads.len() ==> (#[trigger] payloads[i]).len() <= u32::MAX,
    ensures
        has_frame(frames_of(payloads) + rest),
        frame_payload(frames_of(payloads) + rest) == payloads[0],
        after_frame(frames_of(payloads) + rest) == frames_of(payloads.drop_first()) + rest,
{
    let tail = frames_of(payloads.drop_first()) + rest;
    assert(payloads[0].len() <= u32::MAX);
    lemma_frame_round_trip(payloads[0], tail);
    assert(frames_of(payloads) + rest =~= frame_of(payloads[0]) + tail);
}

/// Bytes at hand that start a stream of a frame of `payload` followed by `u`
/// and hold a complete frame: that frame carries `payload`, and what follows
/// it at hand, followed by the rest of the stream, is `u`.
pub proof fn lemma_frame_prefix(w: Seq<u8>, t: Seq<u8>, payload: Seq<u8>, u: Seq<u8>)
    requires
        payload.len() <= u32::MAX,
        has_frame(w),
        w + t == frame_of(payload) + u,
    ensures
        frame_payload(w) == payload,
        after_frame(w) + t == u,
{
    lemma_le_round_trip(payload.len());
    let whole = frame_of(payload) + u;
    assert(w[0] == whole[0] && w[1] == whole[1] && w[2] == whole[2] && w[3] == whole[3]) by {
        assert((w + t)[0] == w[0]);
        assert((w + t)[1] == w[1]);
        assert((w + t)[2] == whole[2]) by { assert((w + t)[2] == w[2]); }
        assert((w + t)[3] == w[3]);
    }
    assert(header_value(w) == payload.len());
    let n = HEADER_SIZE + payload.len();
    assert(frame_payload(w) =~= payload) by {
        assert forall|k: int| 0 <= k < payload.len() implies frame_payload(w)[k] == payload[k] by {
            assert((w + t)[HEADER_SIZE + k] == w[HEADER_SIZE + k]);
            assert(whole[HEADER_SIZE + k] == payload[k]);
        }
    }
    assert((w + t).len() == whole.len());
    let a = after_frame(w);
    assert(a.len() == w.len() - n);
    assert((a + t).len() == u.len());
    assert(a + t =~= u) by {
        assert forall|k: int| 0 <= k < u.len() implies (a + t)[k] == u[k] by {
            assert((w + t)[n + k] == whole[n + k]);
            assert(whole[n + k] == u[k]);
            if k < a.len() {
                assert((a + t)[k] == a[k]);
                assert(a[k] == w[n + k]);
                assert((w + t)[n + k] == w[n + k]);
            } else {
                assert((a + t)[k] == t[k - a.len()]);
                assert((w + t)[n + k] == t[n + k - w.len()]);
            }
        }
    }
}

/// Header law: a header written with a length reads back as that length.
pub proof fn lemma_header_round_trip(len: nat)
    requires
        len <= u32::MAX,
    ensures
        header_value(le_bytes(len)) == len,
{
    lemma_le_round_trip(len);
}

/// A buffer of bytes consumed from the front and filled at the back.
pub struct Buffer {
    data: Vec<u8>,
    read: usize,
}

impl View for Buffer {
    type V = Seq<u8>;

    open spec fn view(&self) -> Seq<u8> {
        self.unread()
    }
}

impl Buffer {
    /// The bytes written and not yet consumed.
    pub closed spec fn unread(&self) -> Seq<u8> {
        self.data@.subrange(self.read as int, self.data@.len() as int)
    }

    /// The buffer's own consistency: the consumed prefix lies inside the data.
    pub closed spec fn wf(&self) -> bool {
        self.read <= self.data@.len()
    }

    /// An empty buffer.
    pub fn new() -> (b: Self)
        ensures
            b.wf(),
            b@ == Seq::<u8>::empty(),
    {
        let b = Buffer { data: Vec::new(), read: 0 };
        assert(b@ =~= Seq::<u8>::empty());
        b
    }

    /// An empty buffer with room for `capacity` bytes.
    pub fn with_capacity(capacity: usize) -> (b: Self)
        ensures
            b.wf(),
            b@ == Seq::<u8>::empty(),
    {
        let b = Buffer { data: Vec::with_capacity(capacity), read: 0 };
        assert(b@ =~= Seq::<u8>::empty());
        b
    }

    /// Drops everything in the buffer.
    pub fn reset(&mut self)
        ensures
            final(self).wf(),
            final(self)@ == Seq::<u8>::empty(),
    {
        self.data.clear();
        self.read = 0;
        assert(self@ =~= Seq::<u8>::empty());
    }

    /// Whether nothing is left to consume.
    pub fn is_empty(&self) -> (r: bool)
        requires
            self.wf(),
        ensures
            r == (self@.len() == 0),
    {
        self.read == self.data.len()
    }

    /// The bytes written and not yet consumed.
    pub fn get_written(&self) -> (r: &[u8])
        requires
            self.wf(),
        ensures
            r@ == self@,
    {
        slice_subrange(self.data.as_slice(), self.read, self.data.len())
    }

    /// Consumes the first `n` bytes and hands them back.
    pub fn advance_read(&mut self, n: usize) -> (r: Vec<u8>)
        requires
            old(self).wf(),
            n <= old(self)@.len(),
        ensures
            final(self).wf(),
            r@ == old(self)@.subrange(0, n as int),
            final(self)@ == old(self)@.subrange(n as int, old(self)@.len() as int),
    {
        let mut out: Vec<u8> = Vec::new();
        let start = self.read;
        let dlen = self.data.len();
        let mut i: usize = 0;
        while i < n
            invariant
                i <= n,
                dlen == self.data@.len(),
                start + n <= self.data@.len(),
                self.read == start,
                out@ == self.data@.subrange(start as int, start + i),
            decreases n - i,
        {
            out.push(self.data[start + i]);
            i = i + 1;
            assert(out@ =~= self.data@.subrange(start as int, start + i));
        }
        self.read = start + n;
        assert(out@ =~= old(self)@.subrange(0, n as int));
        assert(self@ =~= old(self)@.subrange(n as int, old(self)@.len() as int));
        out
    }

    /// Appends `bytes` behind what is in the buffer.
    pub fn copy_from(&mut self, bytes: &[u8])
        requires
            old(self).wf(),
        ensures
            final(self).wf(),
            final(self)@ == old(self)@ + bytes@,
    {
        let ghost before = self.data@;
        let mut i: usize = 0;
        while i < bytes.len()
            invariant
                i <= bytes@.len(),
                self.read == old(self).read,
                self.read <= before.len(),
                self.data@ == before + bytes@.subrange(0, i as int),
            decreases bytes@.len() - i,
        {
            self.data.push(bytes[i]);
            i = i + 1;
            assert(self.data@ =~= before + bytes@.subrange(0, i as int));
        }
        assert(self@ =~= old(self)@ + bytes@);
    }

    /// Consumes the first `n` bytes and moves what is left to the front of the
    /// storage.
    pub fn consume(&mut self, n: usize)
        requires
            old(self).wf(),
            n <= old(self)@.len(),
        ensures
            final(self).wf(),
            final(self)@ == old(self)@.subrange(n as int, old(self)@.len() as int),
    {
        let mut rest: Vec<u8> = Vec::new();
        let dlen = self.data.len();
        let start = self.read + n;
        let mut i: usize = start;
        while i < self.data.len()
            invariant
                start <= i <= self.data@.len(),
                rest@ == self.data@.subrange(start as int, i as int),
            decreases self.data@.len() - i,
        {
            rest.push(self.data[i]);
            i = i + 1;
            assert(rest@ =~= self.data@.subrange(start as int, i as int));
        }
        self.data = rest;
        self.read = 0;
        assert(self@ =~= old(self)@.subrange(n as int, old(self)@.len() as int));
    }
}

} // verus!
