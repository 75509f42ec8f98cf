//! One connection of the framed packet transport: a socket with the bytes
//! still to be written to it and the bytes read from it that do not yet form a
//! complete frame.

use vstd::prelude::*;
use crate::framing::{
    after_frame, encode_frame, find_frame, frame_of, frame_payload, frames_of, has_frame, header_value, lemma_frame_prefix, lemma_frames_stream,
    Buffer, HEADER_SIZE,
};
use crate::stream::{
    bytes_read, is_write_run, lemma_run_empty, lemma_run_push, read_outcome, run_so_far, taken, ByteRead, ByteWrite,
    StreamError, WriteCall,
};

verus! {

/// How many bytes one read from a socket asks for.
pub const PROBE_LENGTH: usize = 4096;

/// A message that can travel through the transport.
pub trait Packet: Sized {
    /// Whether the implementation keeps to `encoding` and `decoding`. Only an
    /// implementation that says so promises them; the default says no.
    closed spec fn obeys_packet_spec() -> bool {
        false
    }

    /// The bytes that encode the packet, when the implementation states them.
    closed spec fn encoding(&self) -> Seq<u8> {
        Seq::empty()
    }

    /// What decoding `payload` gives, when the implementation states it.
    closed spec fn decoding(payload: Seq<u8>) -> Result<Self, String> {
        arbitrary()
    }

    /// About how many bytes the encoding takes.
    fn expected_size(&self) -> usize;

    /// Appends the encoding of the packet to `buffer`.
    fn write_buf(self, buffer: &mut Vec<u8>)
        ensures
            Self::obeys_packet_spec() ==> final(buffer)@ == old(buffer)@ + self.encoding(),
    ;

    /// Decodes a packet from a complete payload.
    fn read_buf(buffer: &[u8]) -> (r: Result<Self, String>)
        ensures
            Self::obeys_packet_spec() ==> r == Self::decoding(buffer@),
    ;
}

/// The worker could not be reached.
#[derive(Debug, Default, Clone, Copy, PartialEq, Eq)]
pub struct MessageError;

/// Why a networking operation failed.
#[derive(Debug)]
pub enum NetError {
    /// The socket reported an error.
    Io(StreamError),
    /// The peer closed the socket.
    PeerClosed,
    /// A packet's encoding is too long for its length to fit in a header.
    OversizedPacket(usize),
    /// The worker could not be reached.
    Message(MessageError),
    /// A packet was addressed to a peer that is not connected.
    UnknownPeer(usize),
    /// A payload could not be decoded.
    ParsingError(String),
    /// An error with the step that it interrupted.
    Chain(String, Box<NetError>),
}

impl NetError {
    /// This error, as the cause of a failure of the step named by `message`.
    pub fn chain(self, message: String) -> (r: NetError)
        ensures
            r matches NetError::Chain(m, cause) && m == message && *cause == self,
    {
        NetError::Chain(message, Box::new(self))
    }
}

/// What a whole run of writes with answers `calls` returns from `raw_write`:
/// `Ok(true)` when everything went out, `Ok(false)` when the socket would
/// block, `PeerClosed` when it took nothing, and the socket's other errors.
pub open spec fn raw_write_result(calls: Seq<WriteCall>) -> Result<bool, NetError> {
    if calls.len() == 0 {
        Ok(true)
    } else {
        match calls.last().1 {
            Ok(n) => if n == 0 {
                Err(NetError::PeerClosed)
            } else {
                Ok(true)
            },
            Err(StreamError::WouldBlock) => Ok(false),
            Err(e) => Err(NetError::Io(e)),
        }
    }
}

/// Writes the buffered bytes to the socket until the buffer is empty or the
/// socket would block; what was written is consumed from the buffer. `Ok(true)`
/// when everything went out, `Ok(false)` when the socket would block.
pub fn raw_write<S: ByteWrite>(socket: &mut S, buffer: &mut Buffer) -> (r: Result<bool, NetError>)
    requires
        old(buffer).wf(),
    ensures
        final(buffer).wf(),
        exists|k: int| 0 <= k <= old(buffer)@.len()
            && final(buffer)@ == old(buffer)@.subrange(k, old(buffer)@.len() as int),
        r matches Ok(true) ==> final(buffer)@.len() == 0,
        r matches Ok(false) ==> final(buffer)@.len() > 0,
        exists|calls: Seq<WriteCall>| #![trigger is_write_run(old(buffer)@, calls)]
            is_write_run(old(buffer)@, calls)
            && (S::keeps_writes() ==> final(socket).writes() == old(socket).writes() + calls)
            && r == raw_write_result(calls)
            && final(buffer)@ == old(buffer)@.subrange(taken(calls) as int, old(buffer)@.len() as int),
{
    let ghost start = buffer@;
    let ghost mut calls: Seq<WriteCall> = Seq::empty();
    proof {
        lemma_run_empty(start);
        assert(old(socket).writes() + calls =~= old(socket).writes());
    }
    assert(start.subrange(0, start.len() as int) =~= start);
    while !buffer.is_empty()
        invariant
            buffer.wf(),
            start == old(buffer)@,
            run_so_far(start, calls),
            buffer@ == start.subrange(taken(calls) as int, start.len() as int),
            buffer@.len() == 0 ==> is_write_run(start, calls),
            S::keeps_writes() ==> socket.writes() == old(socket).writes() + calls,
        decreases buffer@.len(),
    {
        let outcome = socket.write_bytes(buffer.get_written());
        let ghost c: WriteCall = (buffer@, outcome);
        proof {
            lemma_run_push(start, calls, c);
            assert((old(socket).writes() + calls).push(c) =~= old(socket).writes() + calls.push(c));
            calls = calls.push(c);
        }
        match outcome {
            Ok(count) => {
                if count == 0 {
                    return Err(NetError::PeerClosed);
                }
                let _ = buffer.advance_read(count);
                assert(buffer@ =~= start.subrange(taken(calls) as int, start.len() as int));
            },
            Err(StreamError::WouldBlock) => {
                return Ok(false);
            },
            Err(e) => {
                return Err(NetError::Io(e));
            },
        }
    }
    Ok(true)
}

/// Reads once from the socket and appends what came to the buffer. `Ok(true)`
/// when something was read, `Ok(false)` when the socket would block.
pub fn raw_read_once<S: ByteRead>(socket: &mut S, buffer: &mut Buffer) -> (r: Result<bool, NetError>)
    requires
        old(buffer).wf(),
    ensures
        final(buffer).wf(),
        r matches Ok(true) ==> exists|more: Seq<u8>| more.len() > 0 && final(buffer)@ == old(buffer)@ + more,
        !(r matches Ok(true)) ==> final(buffer)@ == old(buffer)@,
        exists|o: Result<Seq<u8>, StreamError>| #![trigger probe_step(o)]
            (S::keeps_reads() ==> final(socket).reads() == old(socket).reads().push(o))
            && r == probe_step(o)
            && final(buffer)@ == old(buffer)@ + bytes_read(o),
{
    let outcome = socket.read_bytes(PROBE_LENGTH);
    let ghost o = read_outcome(outcome);
    let r = absorb_probe(outcome, buffer);
    assert(S::keeps_reads() ==> socket.reads() == old(socket).reads().push(o));
    assert(r == probe_step(o));
    assert(buffer@ =~= old(buffer)@ + bytes_read(o));
    r
}

/// What one read from a socket with outcome `o` returns: `Ok(true)` when data
/// came; the peer closed when nothing came; `Ok(false)` when the read would
/// block; any other error is returned.
pub open spec fn probe_step(o: Result<Seq<u8>, StreamError>) -> Result<bool, NetError> {
    match o {
        Ok(bytes) => if bytes.len() == 0 {
            Err(NetError::PeerClosed)
        } else {
            Ok(true)
        },
        Err(StreamError::WouldBlock) => Ok(false),
        Err(e) => Err(NetError::Io(e)),
    }
}

/// What the outcome of one read from a socket does to the buffer: the bytes
/// that came are appended (`Ok(true)`); nothing read means that the peer
/// closed; an error that only says that the read would block gives `Ok(false)`,
/// any other is returned.
pub fn absorb_probe(outcome: Result<Vec<u8>, StreamError>, buffer: &mut Buffer) -> (r: Result<bool, NetError>)
    requires
        old(buffer).wf(),
    ensures
        final(buffer).wf(),
        r == probe_step(read_outcome(outcome)),
        final(buffer)@ == old(buffer)@ + bytes_read(read_outcome(outcome)),
{
    match outcome {
        Ok(bytes) => {
            if bytes.len() == 0 {
                assert(buffer@ =~= old(buffer)@ + bytes@);
                return Err(NetError::PeerClosed);
            }
            buffer.copy_from(bytes.as_slice());
            Ok(true)
        },
        Err(StreamError::WouldBlock) => {
            assert(buffer@ =~= old(buffer)@ + Seq::<u8>::empty());
            Ok(false)
        },
        Err(e) => {
            assert(buffer@ =~= old(buffer)@ + Seq::<u8>::empty());
            Err(NetError::Io(e))
        },
    }
}

/// The termination measure of waiting for a frame: the phase (whether the
/// header is still incomplete) and the number of bytes still missing.
pub open spec fn frame_wait(bytes: Seq<u8>) -> (int, int) {
    if bytes.len() < HEADER_SIZE {
        (1, HEADER_SIZE - bytes.len())
    } else if HEADER_SIZE + header_value(bytes) > bytes.len() {
        (0, HEADER_SIZE + header_value(bytes) - bytes.len())
    } else {
        (0, 0)
    }
}

/// A connection to a peer over socket `S`.
pub struct Peer<S> {
    conected: bool,
    writeable: bool,
    write_buffer: Buffer,
    read_buffer: Buffer,
    socket: S,
    sent: Ghost<Seq<Seq<u8>>>,
}

impl<S> Peer<S> {
    /// The buffers' consistency.
    pub closed spec fn wf(&self) -> bool {
        self.write_buffer.wf() && self.read_buffer.wf()
    }

    /// Whether the connection has been set up.
    pub closed spec fn is_connected(&self) -> bool {
        self.conected
    }

    /// Whether the socket took everything at the last write.
    pub closed spec fn is_writeable(&self) -> bool {
        self.writeable
    }

    /// The socket.
    pub closed spec fn sock(&self) -> S {
        self.socket
    }

    /// The payloads of the frames accepted for sending so far, oldest first.
    pub closed spec fn frames_sent(&self) -> Seq<Seq<u8>> {
        self.sent@
    }

    /// Whether the connection has been set up.
    pub fn conected(&self) -> (r: bool)
        ensures
            r == self.is_connected(),
    {
        self.conected
    }

    /// Whether the socket took everything at the last write.
    pub fn writeable(&self) -> (r: bool)
        ensures
            r == self.is_writeable(),
    {
        self.writeable
    }

    /// Marks the connection as set up.
    pub fn set_conected(&mut self)
        ensures
            final(self).is_connected(),
            final(self).is_writeable() == old(self).is_writeable(),
            final(self).pending_write() == old(self).pending_write(),
            final(self).pending_read() == old(self).pending_read(),
            final(self).sock() == old(self).sock(),
            final(self).wf() == old(self).wf(),
            final(self).frames_sent() == old(self).frames_sent(),
    {
        self.conected = true;
    }

    /// The socket.
    pub fn socket(&self) -> (r: &S)
        ensures
            *r == self.sock(),
    {
        &self.socket
    }

    /// The bytes still to be written to the socket.
    pub closed spec fn pending_write(&self) -> Seq<u8> {
        self.write_buffer@
    }

    /// The bytes read from the socket that do not form a complete frame yet.
    pub closed spec fn pending_read(&self) -> Seq<u8> {
        self.read_buffer@
    }

    /// A new, not yet connected peer on `socket`.
    pub fn new(socket: S) -> (p: Self)
        ensures
            p.wf(),
            !p.is_connected(),
            !p.is_writeable(),
            p.pending_write() == Seq::<u8>::empty(),
            p.pending_read() == Seq::<u8>::empty(),
            p.sock() == socket,
            p.frames_sent() == Seq::<Seq<u8>>::empty(),
    {
        Peer {
            conected: false,
            writeable: false,
            write_buffer: Buffer::new(),
            read_buffer: Buffer::new(),
            socket,
            sent: Ghost(Seq::empty()),
        }
    }
}

/// Whether a call of `write_packet` that encoded the packet as `payload`
/// and made the writes `calls`, taking the peer from `before` to `after`,
/// did what it should: a payload too long for a header is refused with the
/// peer untouched; otherwise the frame of the payload is offered to the
/// socket, what the socket did not take is queued behind the pending bytes,
/// and a socket error is passed on with the queue as it was.
pub open spec fn packet_sent<S: ByteWrite>(
    before: Peer<S>,
    after: Peer<S>,
    payload: Seq<u8>,
    calls: Seq<WriteCall>,
    r: Result<(), NetError>,
) -> bool {
    if payload.len() > u32::MAX {
        payload.len() <= usize::MAX && r == Err::<(), NetError>(NetError::OversizedPacket(payload.len() as usize))
            && after == before
    } else {
        let frame = frame_of(payload);
        &&& is_write_run(frame, calls)
        &&& S::keeps_writes() ==> after.sock().writes() == before.sock().writes() + calls
        &&& after.is_connected() == before.is_connected()
        &&& match raw_write_result(calls) {
            Ok(w) => {
                &&& r is Ok
                &&& after.is_writeable() == w
                &&& after.pending_write() == before.pending_write() + frame.subrange(taken(calls) as int, frame.len() as int)
                &&& after.frames_sent() == before.frames_sent().push(payload)
            },
            Err(e) => {
                &&& r == Err::<(), NetError>(e)
                &&& after.is_writeable() == before.is_writeable()
                &&& after.pending_write() == before.pending_write()
                &&& after.frames_sent() == before.frames_sent()
            },
        }
    }
}

impl<S: ByteWrite> Peer<S> {
    /// Frames `packet` and writes the frame to the socket; what the socket does
    /// not take is kept and written before anything else on the next writeable
    /// event. `temp` is scratch space.
    pub fn write_packet<P: Packet>(&mut self, packet: P, temp: &mut Buffer) -> (r: Result<(), NetError>)
        requires
            old(self).wf(),
        ensures
            final(self).wf(),
            final(temp).wf(),
            r is Ok ==> exists|payload: Seq<u8>, k: int| 0 <= k <= frame_of(payload).len()
                && final(self).pending_write() == old(self).pending_write()
                    + frame_of(payload).subrange(k, frame_of(payload).len() as int)
                && final(self).frames_sent() == old(self).frames_sent().push(payload),
            r is Err ==> final(self).frames_sent() == old(self).frames_sent(),
            r is Ok && final(self).is_writeable() ==> final(self).pending_write() == old(self).pending_write(),
            r matches Err(NetError::OversizedPacket(_)) ==> final(self).pending_write() == old(self).pending_write()
                && final(self).is_writeable() == old(self).is_writeable(),
            final(self).is_connected() == old(self).is_connected(),
            exists|payload: Seq<u8>, calls: Seq<WriteCall>|
                #![trigger packet_sent(*old(self), *final(self), payload, calls, r)]
                (P::obeys_packet_spec() ==> payload == packet.encoding())
                && packet_sent(*old(self), *final(self), payload, calls, r),
    {
        let ghost encoded = packet.encoding();
        temp.reset();
        let mut payload: Vec<u8> = Vec::new();
        packet.write_buf(&mut payload);
        assert(P::obeys_packet_spec() ==> payload@ =~= encoded);
        let frame = match encode_frame(payload.as_slice()) {
            Some(frame) => frame,
            None => {
                assert(packet_sent(*old(self), *self, payload@, Seq::<WriteCall>::empty(), Err::<(), NetError>(NetError::OversizedPacket(payload.len()))));
                return Err(NetError::OversizedPacket(payload.len()));
            },
        };
        temp.copy_from(frame.as_slice());
        assert(temp@ =~= frame_of(payload@));
        let ghost frame_bytes = temp@;
        let outcome = raw_write(&mut self.socket, temp);
        let ghost calls = choose|calls: Seq<WriteCall>| #![trigger is_write_run(frame_bytes, calls)]
            is_write_run(frame_bytes, calls)
            && (S::keeps_writes() ==> self.socket.writes() == old(self).socket.writes() + calls)
            && outcome == raw_write_result(calls)
            && temp@ == frame_bytes.subrange(taken(calls) as int, frame_bytes.len() as int);
        let writeable = match outcome {
            Ok(w) => w,
            Err(e) => {
                assert(packet_sent(*old(self), *self, payload@, calls, Err::<(), NetError>(e)));
                return Err(e);
            },
        };
        self.writeable = writeable;
        let ghost before = self.write_buffer@;
        self.write_buffer.copy_from(temp.get_written());
        proof {
            self.sent@ = self.sent@.push(payload@);
            let k = choose|k: int| 0 <= k <= frame_of(payload@).len()
                && temp@ == frame_of(payload@).subrange(k, frame_of(payload@).len() as int);
            assert(self.write_buffer@ == before + frame_of(payload@).subrange(k, frame_of(payload@).len() as int));
            if writeable {
                assert(self.write_buffer@ =~= before);
            }
            assert(packet_sent(*old(self), *self, payload@, calls, Ok::<(), NetError>(())));
        }
        Ok(())
    }

    /// Writes what is still buffered; the connection stays writeable when all
    /// of it went out.
    pub fn write_remaining(&mut self) -> (r: Result<(), NetError>)
        requires
            old(self).wf(),
        ensures
            final(self).wf(),
            exists|k: int| 0 <= k <= old(self).pending_write().len()
                && final(self).pending_write() == old(self).pending_write().subrange(k, old(self).pending_write().len() as int),
            r is Ok ==> (final(self).is_writeable() <==> final(self).pending_write().len() == 0),
            final(self).is_connected() == old(self).is_connected(),
            final(self).frames_sent() == old(self).frames_sent(),
            exists|calls: Seq<WriteCall>| #![trigger is_write_run(old(self).pending_write(), calls)]
                is_write_run(old(self).pending_write(), calls)
                && (S::keeps_writes() ==> final(self).sock().writes() == old(self).sock().writes() + calls)
                && final(self).pending_write() == old(self).pending_write().subrange(
                    taken(calls) as int, old(self).pending_write().len() as int)
                && match raw_write_result(calls) {
                    Ok(w) => r is Ok && final(self).is_writeable() == w,
                    Err(e) => r == Err::<(), NetError>(e) && final(self).is_writeable() == old(self).is_writeable(),
                },
    {
        let ghost before = self.write_buffer@;
        let outcome = raw_write(&mut self.socket, &mut self.write_buffer);
        let ghost calls = choose|calls: Seq<WriteCall>| #![trigger is_write_run(before, calls)]
            is_write_run(before, calls)
            && (S::keeps_writes() ==> self.socket.writes() == old(self).socket.writes() + calls)
            && outcome == raw_write_result(calls)
            && self.write_buffer@ == before.subrange(taken(calls) as int, before.len() as int);
        let ghost k = taken(calls) as int;
        let writeable = match outcome {
            Ok(w) => w,
            Err(e) => {
                assert(self.pending_write() == old(self).pending_write().subrange(k, old(self).pending_write().len() as int));
                assert(is_write_run(old(self).pending_write(), calls));
                return Err(e);
            },
        };
        self.writeable = writeable;
        self.write_buffer.consume(0);
        assert(self.write_buffer@ =~= before.subrange(k, before.len() as int));
        assert(self.pending_write() == old(self).pending_write().subrange(k, old(self).pending_write().len() as int));
        assert(is_write_run(old(self).pending_write(), calls));
        Ok(())
    }
}

/// The bytes at hand after the reads with outcomes `os` were added to
/// `pending`.
pub open spec fn received(pending: Seq<u8>, os: Seq<Result<Seq<u8>, StreamError>>) -> Seq<u8>
    decreases os.len(),
{
    if os.len() == 0 {
        pending
    } else {
        received(pending, os.drop_last()) + bytes_read(os.last())
    }
}

/// What `read_packet` returns for the frame payload `payload`: the decoded
/// packet, or the decoder's message as a parsing error.
pub open spec fn decoded_result<P: Packet>(payload: Seq<u8>) -> Result<Option<P>, NetError> {
    match P::decoding(payload) {
        Ok(p) => Ok(Some(p)),
        Err(m) => Err(NetError::ParsingError(m)),
    }
}

/// Whether a call of `read_packet` that found `pending` buffered, made the
/// reads with outcomes `os`, returned `r` and left `after` buffered, did
/// what it should. It reads only while the bytes at hand hold no complete
/// frame, and reads again only after a read that brought data. A complete
/// frame is decoded and the bytes behind it are kept. Without one, a read that
/// would block gives `None` and keeps the bytes; a read that fails gives its
/// error. After an error nothing stays buffered.
pub open spec fn packet_read<P: Packet>(
    pending: Seq<u8>,
    os: Seq<Result<Seq<u8>, StreamError>>,
    r: Result<Option<P>, NetError>,
    after: Seq<u8>,
) -> bool {
    let whole = received(pending, os);
    &&& forall|k: int| 0 <= k < os.len() ==> !has_frame(#[trigger] received(pending, os.take(k)))
    &&& forall|k: int| 0 <= k < os.len() - 1 ==> probe_step(#[trigger] os[k]) == Ok::<bool, NetError>(true)
    &&& r is Err ==> after == Seq::<u8>::empty()
    &&& if has_frame(whole) {
        &&& os.len() > 0 ==> probe_step(os.last()) == Ok::<bool, NetError>(true)
        &&& (r matches Ok(Some(_)) || r matches Err(NetError::ParsingError(_)))
        &&& P::obeys_packet_spec() ==> r == decoded_result::<P>(frame_payload(whole))
        &&& r is Ok ==> after == after_frame(whole)
    } else {
        &&& os.len() > 0
        &&& probe_step(os.last()) != Ok::<bool, NetError>(true)
        &&& r == match probe_step(os.last()) {
            Ok(_) => Ok::<Option<P>, NetError>(None),
            Err(e) => Err::<Option<P>, NetError>(e),
        }
        &&& r is Ok ==> after == whole
    }
}

/// Transport law: a packet read over bytes that are the frames of payloads
/// `payloads`, one after the other with any bytes behind them, gives the
/// decoding of the first payload and keeps exactly the frames of the others
/// (and the bytes behind them) for the next read. Repeated, it hands the
/// packets over in order, none lost or repeated.
pub proof fn lemma_read_packet_stream<P: Packet>(
    pending: Seq<u8>,
    os: Seq<Result<Seq<u8>, StreamError>>,
    r: Result<Option<P>, NetError>,
    after: Seq<u8>,
    payloads: Seq<Seq<u8>>,
    rest: Seq<u8>,
)
    requires
        P::obeys_packet_spec(),
        packet_read::<P>(pending, os, r, after),
        received(pending, os) == frames_of(payloads) + rest,
        payloads.len() > 0,
        forall|i: int| 0 <= i < payloads.len() ==> (#[trigger] payloads[i]).len() <= u32::MAX,
    ensures
        r == decoded_result::<P>(payloads[0]),
        r is Ok ==> after == frames_of(payloads.drop_first()) + rest,
{
    lemma_frames_stream(payloads, rest);
}

/// The bytes that reads with outcomes `os` brought, in order.
pub open spec fn brought(os: Seq<Result<Seq<u8>, StreamError>>) -> Seq<u8>
    decreases os.len(),
{
    if os.len() == 0 {
        Seq::empty()
    } else {
        brought(os.drop_last()) + bytes_read(os.last())
    }
}

/// The bytes that the reads of successive calls brought, call after call.
pub open spec fn brought_all(oss: Seq<Seq<Result<Seq<u8>, StreamError>>>) -> Seq<u8>
    decreases oss.len(),
{
    if oss.len() == 0 {
        Seq::empty()
    } else {
        brought(oss[0]) + brought_all(oss.drop_first())
    }
}

/// What is at hand after some reads is what was buffered, followed by what
/// the reads brought.
proof fn lemma_received_is_brought(pending: Seq<u8>, os: Seq<Result<Seq<u8>, StreamError>>)
    ensures
        received(pending, os) == pending + brought(os),
    decreases os.len(),
{
    if os.len() > 0 {
        lemma_received_is_brought(pending, os.drop_last());
        assert(pending + brought(os.drop_last()) + bytes_read(os.last()) =~= pending + brought(os));
    }
}

/// The successive reads from call `k` on: what was buffered before call `k`,
/// followed by what the reads of call `k` and the later calls brought, is the
/// frames of the payloads from `k` on, followed by `rest`.
proof fn lemma_read_calls_from<P: Packet>(
    pendings: Seq<Seq<u8>>,
    oss: Seq<Seq<Result<Seq<u8>, StreamError>>>,
    rs: Seq<Result<Option<P>, NetError>>,
    payloads: Seq<Seq<u8>>,
    rest: Seq<u8>,
    k: int,
)
    requires
        P::obeys_packet_spec(),
        pendings.len() == payloads.len() + 1,
        oss.len() == payloads.len(),
        rs.len() == payloads.len(),
        forall|i: int| 0 <= i < payloads.len() ==> packet_read::<P>(pendings[i], oss[i], #[trigger] rs[i], pendings[i + 1]),
        forall|i: int| 0 <= i < payloads.len() ==> (#[trigger] rs[i]) matches Ok(Some(_)),
        forall|i: int| 0 <= i < payloads.len() ==> (#[trigger] payloads[i]).len() <= u32::MAX,
        0 <= k <= payloads.len(),
        pendings[k] + brought_all(oss.skip(k)) == frames_of(payloads.skip(k)) + rest,
    ensures
        forall|i: int| k <= i < payloads.len() ==> #[trigger] rs[i] == decoded_result::<P>(payloads[i]),
        pendings[payloads.len() as int] == rest,
    decreases payloads.len() - k,
{
    let n = payloads.len() as int;
    if k == n {
        assert(oss.skip(k) =~= Seq::<Seq<Result<Seq<u8>, StreamError>>>::empty());
        assert(payloads.skip(k) =~= Seq::<Seq<u8>>::empty());
        assert(pendings[k] + Seq::<u8>::empty() =~= pendings[k]);
        assert(Seq::<u8>::empty() + rest =~= rest);
    } else {
        let whole = received(pendings[k], oss[k]);
        let later = brought_all(oss.skip(k + 1));
        lemma_received_is_brought(pendings[k], oss[k]);
        assert(oss.skip(k)[0] == oss[k]);
        assert(oss.skip(k).drop_first() =~= oss.skip(k + 1));
        assert(payloads.skip(k)[0] == payloads[k]);
        assert(payloads.skip(k).drop_first() =~= payloads.skip(k + 1));
        let tail = frames_of(payloads.skip(k + 1)) + rest;
        assert(whole + later =~= pendings[k] + brought_all(oss.skip(k)));
        assert(frames_of(payloads.skip(k)) + rest =~= frame_of(payloads[k]) + tail);
        assert(packet_read::<P>(pendings[k], oss[k], rs[k], pendings[k + 1]));
        assert(rs[k] matches Ok(Some(_)));
        assert(has_frame(whole));
        lemma_frame_prefix(whole, later, payloads[k], tail);
        lemma_read_calls_from(pendings, oss, rs, payloads, rest, k + 1);
    }
}

/// Transport law over successive calls: when the bytes first buffered,
/// followed by everything the reads of successive `read_packet` calls
/// brought, are the frames of payloads `payloads` followed by `rest`, and
/// each call gave a packet, then call `i` gave the decoding of payload `i`,
/// and what stays buffered at the end is `rest`: no packet is lost, repeated
/// or reordered, whatever the chunks the socket handed out.
pub proof fn lemma_read_packets_in_order<P: Packet>(
    pendings: Seq<Seq<u8>>,
    oss: Seq<Seq<Result<Seq<u8>, StreamError>>>,
    rs: Seq<Result<Option<P>, NetError>>,
    payloads: Seq<Seq<u8>>,
    rest: Seq<u8>,
)
    requires
        P::obeys_packet_spec(),
        pendings.len() == payloads.len() + 1,
        oss.len() == payloads.len(),
        rs.len() == payloads.len(),
        forall|i: int| 0 <= i < payloads.len() ==> packet_read::<P>(pendings[i], oss[i], #[trigger] rs[i], pendings[i + 1]),
        forall|i: int| 0 <= i < payloads.len() ==> (#[trigger] rs[i]) matches Ok(Some(_)),
        forall|i: int| 0 <= i < payloads.len() ==> (#[trigger] payloads[i]).len() <= u32::MAX,
        pendings[0] + brought_all(oss) == frames_of(payloads) + rest,
    ensures
        forall|i: int| 0 <= i < payloads.len() ==> #[trigger] rs[i] == decoded_result::<P>(payloads[i]),
        pendings[payloads.len() as int] == rest,
{
    assert(oss.skip(0) =~= oss);
    assert(payloads.skip(0) =~= payloads);
    lemma_read_calls_from(pendings, oss, rs, payloads, rest, 0);
}

/// One more read adds its bytes to what is at hand, and leaves what was at
/// hand after the earlier reads as it was.
proof fn lemma_received_push(pending: Seq<u8>, os: Seq<Result<Seq<u8>, StreamError>>, o: Result<Seq<u8>, StreamError>)
    ensures
        received(pending, os.push(o)) == received(pending, os) + bytes_read(o),
        os.push(o).take(os.len() as int) == os,
        forall|k: int| 0 <= k <= os.len() ==> #[trigger] os.push(o).take(k) == os.take(k),
{
    assert(os.push(o).drop_last() =~= os);
    assert(os.push(o).take(os.len() as int) =~= os);
    assert forall|k: int| 0 <= k <= os.len() implies #[trigger] os.push(o).take(k) == os.take(k) by {
        assert(os.push(o).take(k) =~= os.take(k));
    }
}

impl<S: ByteRead> Peer<S> {
    /// Reads from the socket until a complete frame is available, and decodes
    /// its payload; `Ok(None)` when the socket would block first. The bytes
    /// behind the frame are kept for the next call.
    pub fn read_packet<P: Packet>(&mut self, temp: &mut Buffer) -> (r: Result<Option<P>, NetError>)
        requires
            old(self).wf(),
        ensures
            final(self).wf(),
            final(temp).wf(),
            r matches Ok(Some(_)) ==> exists|incoming: Seq<u8>|
                has_frame(old(self).pending_read() + incoming)
                && final(self).pending_read() == after_frame(old(self).pending_read() + incoming),
            r matches Ok(None) ==> exists|incoming: Seq<u8>|
                !has_frame(old(self).pending_read() + incoming)
                && final(self).pending_read() == old(self).pending_read() + incoming,
            final(self).is_connected() == old(self).is_connected(),
            final(self).is_writeable() == old(self).is_writeable(),
            final(self).frames_sent() == old(self).frames_sent(),
            exists|os: Seq<Result<Seq<u8>, StreamError>>|
                #![trigger packet_read::<P>(old(self).pending_read(), os, r, final(self).pending_read())]
                (S::keeps_reads() ==> final(self).sock().reads() == old(self).sock().reads() + os)
                && packet_read::<P>(old(self).pending_read(), os, r, final(self).pending_read()),
    {
        temp.reset();
        temp.copy_from(self.read_buffer.get_written());
        self.read_buffer.reset();
        let ghost start = old(self).read_buffer@;
        let ghost mut os: Seq<Result<Seq<u8>, StreamError>> = Seq::empty();
        assert(temp@ =~= start + Seq::<u8>::empty());
        assert(old(self).socket.reads() + os =~= old(self).socket.reads());
        loop
            invariant
                temp.wf(),
                self.read_buffer.wf(),
                self.read_buffer@ == Seq::<u8>::empty(),
                self.conected == old(self).conected,
                self.writeable == old(self).writeable,
                self.write_buffer == old(self).write_buffer,
                self.write_buffer.wf(),
                self.sent == old(self).sent,
                start == old(self).read_buffer@,
                exists|incoming: Seq<u8>| temp@ == start + incoming,
                temp@ == received(start, os),
                S::keeps_reads() ==> self.socket.reads() == old(self).socket.reads() + os,
                forall|k: int| 0 <= k < os.len() ==> !has_frame(#[trigger] received(start, os.take(k))),
                forall|k: int| 0 <= k < os.len() ==> probe_step(#[trigger] os[k]) == Ok::<bool, NetError>(true),
            decreases frame_wait(temp@).0, frame_wait(temp@).1,
        {
            match find_frame(temp.get_written()) {
                Some((begin, end)) => {
                    let ghost whole = temp@;
                    let _header = temp.advance_read(begin);
                    let payload = temp.advance_read(end - begin);
                    assert(temp@ =~= after_frame(whole));
                    assert(payload@ =~= frame_payload(whole));
                    proof {
                        if os.len() > 0 {
                            assert(os[os.len() - 1] == os.last());
                        }
                    }
                    match P::read_buf(payload.as_slice()) {
                        Ok(p) => {
                            self.read_buffer.copy_from(temp.get_written());
                            assert(self.read_buffer@ =~= temp@);
                            proof {
                                let incoming = choose|incoming: Seq<u8>| whole == start + incoming;
                                assert(has_frame(old(self).pending_read() + incoming));
                                assert(self.pending_read() == after_frame(old(self).pending_read() + incoming));
                                assert(packet_read::<P>(start, os, Ok(Some(p)), self.read_buffer@));
                            }
                            return Ok(Some(p));
                        },
                        Err(message) => {
                            let r: Result<Option<P>, NetError> = Err(NetError::ParsingError(message));
                            assert(packet_read::<P>(old(self).pending_read(), os, r, self.pending_read()));
                            assert(S::keeps_reads() ==> self.sock().reads() == old(self).sock().reads() + os);
                            return r;
                        },
                    }
                },
                None => {},
            }
            let ghost before = temp@;
            let ghost reads_before = self.socket.reads();
            let outcome = raw_read_once(&mut self.socket, temp);
            let ghost o = choose|o: Result<Seq<u8>, StreamError>| #![trigger probe_step(o)]
                (S::keeps_reads() ==> self.socket.reads() == reads_before.push(o))
                && outcome == probe_step(o)
                && temp@ == before + bytes_read(o);
            proof {
                lemma_received_push(start, os, o);
                if S::keeps_reads() {
                    assert(self.socket.reads() =~= old(self).socket.reads() + os.push(o));
                }
                assert forall|k: int| 0 <= k < os.push(o).len() implies !has_frame(#[trigger] received(start, os.push(o).take(k))) by {
                    if k < os.len() {
                        assert(os.push(o).take(k) == os.take(k));
                    }
                }
                os = os.push(o);
                assert(os.last() == o);
            }
            let readable = match outcome {
                Ok(readable) => readable,
                Err(e) => {
                    assert(bytes_read(o) =~= Seq::<u8>::empty());
                    let r: Result<Option<P>, NetError> = Err(e);
                    assert(packet_read::<P>(old(self).pending_read(), os, r, self.pending_read()));
                    assert(S::keeps_reads() ==> self.sock().reads() == old(self).sock().reads() + os);
                    return r;
                },
            };
            if !readable {
                self.read_buffer.copy_from(temp.get_written());
                assert(self.read_buffer@ =~= temp@);
                proof {
                    let incoming = choose|incoming: Seq<u8>| before == start + incoming;
                    assert(!has_frame(old(self).pending_read() + incoming));
                    assert(self.pending_read() == old(self).pending_read() + incoming);
                    assert(bytes_read(o) =~= Seq::<u8>::empty());
                    assert(packet_read::<P>(start, os, Ok(None), self.read_buffer@));
                }
                return Ok(None);
            }
            proof {
                let more = choose|more: Seq<u8>| more.len() > 0 && temp@ == before + more;
                let incoming = choose|incoming: Seq<u8>| before == start + incoming;
                assert(temp@ =~= start + (incoming + more));
                assert(!has_frame(before));
                if before.len() >= HEADER_SIZE {
                    assert(temp@[0] == before[0]);
                    assert(temp@[1] == before[1]);
                    assert(temp@[2] == before[2]);
                    assert(temp@[3] == before[3]);
                    assert(header_value(temp@) == header_value(before));
                }
            }
        }
    }
}

} // verus!
