//! The point-to-point packet pump of the `net` transport: buffered,
//! non-blocking writes of encoded packets and incremental decoding of the
//! bytes read from a connection.

use vstd::prelude::*;
use vstd::slice::slice_subrange;
use crate::stream::{
    bytes_read, is_write_run, lemma_run_empty, lemma_run_push, read_outcome, run_so_far, stops, taken, ByteRead, ByteWrite,
    StreamError, WriteCall,
};

verus! {

/// How many bytes one read from a connection asks for.
pub const PROBE_LEN: usize = 4096;

/// A queue of outgoing packets that hands them out already encoded.
pub trait PacketSource {
    /// How many packets are waiting right now.
    fn queued(&self) -> usize;

    /// Appends the encoding of the next waiting packet to `buffer`; `false`
    /// when no packet is waiting.
    fn next_packet(&mut self, buffer: &mut Vec<u8>) -> bool;
}

/// What decoding the front of the read buffer gave.
#[derive(Debug, Clone, Copy, PartialEq, Eq)]
pub enum Decoded {
    /// A packet was decoded from the first `n` bytes and handed to the handler.
    Packet(usize),
    /// The bytes do not hold a complete packet yet.
    Incomplete,
    /// The bytes cannot be decoded.
    Invalid,
}

/// Decodes packets from raw bytes and hands each one to its handler.
pub trait PacketSink {
    fn decode_one(&mut self, data: &[u8]) -> Decoded;
}

/// The outcome of one read and the decoding that follows it.
#[derive(Debug, Clone, Copy, PartialEq, Eq)]
pub enum ReadProgress {
    /// The connection must be closed.
    Close,
    /// Nothing more can be read until the next readiness event.
    WouldBlock,
    /// Data was read and decoded; reading may go on.
    Continue,
}

/// What a whole run of writes of `data` with answers `calls` returns:
/// (bytes written, should close, would block). A run that took everything
/// returns the length; one that would block, what went out before; a closed
/// or failing writer closes.
pub open spec fn write_result(data: Seq<u8>, calls: Seq<WriteCall>) -> (usize, bool, bool) {
    if calls.len() == 0 {
        (0usize, false, false)
    } else {
        match calls.last().1 {
            Ok(n) => if n == 0 {
                (0usize, true, false)
            } else {
                (data.len() as usize, false, false)
            },
            Err(StreamError::WouldBlock) => (taken(calls) as usize, false, true),
            Err(StreamError::Other) => (0usize, true, false),
        }
    }
}

/// Whether a write with answer `o` means that the connection must close.
pub open spec fn closes(o: Result<usize, StreamError>) -> bool {
    o == Ok::<usize, StreamError>(0) || o == Err::<usize, StreamError>(StreamError::Other)
}

/// In a whole run of writes, only the last write can end the run; the result
/// says to close exactly when that write closes, and that the writer would
/// block exactly when it said so; the first write offers all of the data.
pub proof fn lemma_run_result(data: Seq<u8>, calls: Seq<WriteCall>)
    requires
        is_write_run(data, calls),
        data.len() <= usize::MAX,
    ensures
        forall|i: int| 0 <= i < calls.len() - 1 ==> !stops(#[trigger] calls[i].1),
        write_result(data, calls).1 <==> (calls.len() > 0 && closes(calls.last().1)),
        write_result(data, calls).2 <==> (calls.len() > 0 && calls.last().1 == Err::<usize, StreamError>(StreamError::WouldBlock)),
        !write_result(data, calls).1 && !write_result(data, calls).2 ==> forall|i: int| 0 <= i < calls.len() ==> !stops(#[trigger] calls[i].1),
        calls.len() > 0 ==> calls[0].0 == data,
        write_result(data, calls).0 <= data.len(),
        !write_result(data, calls).1 ==> write_result(data, calls).0 == taken(calls),
{
    if calls.len() > 0 {
        let front = calls.drop_last();
        assert forall|i: int| 0 <= i < calls.len() - 1 implies !stops(#[trigger] calls[i].1) by {
            assert(calls[i] == front[i]);
            assert(taken(front.take(i)) < data.len());
        }
        if calls.len() == 1 {
            assert(front =~= Seq::<WriteCall>::empty());
        } else {
            assert(front[0] == calls[0]);
            assert(front.take(0) =~= Seq::<WriteCall>::empty());
            assert(taken(front.take(0)) < data.len());
        }
        assert(data.subrange(0, data.len() as int) =~= data);
    }
}

/// Writes `data` until it is all written, the writer would block, or the
/// connection is gone. Returns (bytes written, should close, would block).
pub fn write<W: ByteWrite>(writer: &mut W, data: &[u8]) -> (r: (usize, bool, bool))
    ensures
        r.0 <= data@.len(),
        r.1 ==> r.0 == 0 && !r.2,
        !r.1 && !r.2 ==> r.0 == data@.len(),
        data@.len() == 0 ==> r == (0usize, false, false),
        exists|calls: Seq<WriteCall>| is_write_run(data@, calls) && r == write_result(data@, calls)
            && (W::keeps_writes() ==> final(writer).writes() == old(writer).writes() + calls),
{
    let start_len: usize = data.len();
    let mut done: usize = 0;
    let ghost mut calls: Seq<WriteCall> = Seq::empty();
    proof {
        lemma_run_empty(data@);
        assert(old(writer).writes() + calls =~= old(writer).writes());
    }
    while done < start_len
        invariant
            done <= start_len,
            start_len == data@.len(),
            run_so_far(data@, calls),
            taken(calls) == done,
            done == start_len ==> is_write_run(data@, calls),
            W::keeps_writes() ==> writer.writes() == old(writer).writes() + calls,
        decreases start_len - done,
    {
        let rest: &[u8] = slice_subrange(data, done, start_len);
        let outcome = writer.write_bytes(rest);
        let ghost c: WriteCall = (rest@, outcome);
        proof {
            lemma_run_push(data@, calls, c);
            assert((old(writer).writes() + calls).push(c) =~= old(writer).writes() + calls.push(c));
            calls = calls.push(c);
        }
        match outcome {
            Ok(amount) => {
                if amount == 0 {
                    return (0, true, false);
                }
                done = done + amount;
            },
            Err(StreamError::WouldBlock) => {
                return (done, false, true);
            },
            Err(StreamError::Other) => {
                return (0, true, false);
            },
        }
    }
    (start_len, false, false)
}

/// What one read with outcome `o` returns: (bytes read, should close). Nothing
/// read closes; an error closes unless it only says that the read would block.
pub open spec fn read_step(o: Result<Seq<u8>, StreamError>) -> (usize, bool) {
    match o {
        Ok(b) => if b.len() == 0 {
            (0usize, true)
        } else {
            (b.len() as usize, false)
        },
        Err(StreamError::WouldBlock) => (0usize, false),
        Err(StreamError::Other) => (0usize, true),
    }
}

/// Reads once from `reader` and appends what came to `read_buffer`.
/// Returns (bytes read, should close); (0, false) means the reader would block.
pub fn read<R: ByteRead>(reader: &mut R, read_buffer: &mut Vec<u8>) -> (r: (usize, bool))
    ensures
        r.0 <= PROBE_LEN,
        r.1 ==> r.0 == 0,
        final(read_buffer)@.len() == old(read_buffer)@.len() + r.0,
        final(read_buffer)@.subrange(0, old(read_buffer)@.len() as int) == old(read_buffer)@,
        exists|o: Result<Seq<u8>, StreamError>| (R::keeps_reads() ==> final(reader).reads() == old(reader).reads().push(o))
            && bytes_read(o).len() <= PROBE_LEN
            && r == read_step(o)
            && final(read_buffer)@ == old(read_buffer)@ + bytes_read(o),
{
    let outcome = reader.read_bytes(PROBE_LEN);
    let ghost o = read_outcome(outcome);
    let r = absorb_read(outcome, read_buffer);
    assert(R::keeps_reads() ==> reader.reads() == old(reader).reads().push(o));
    assert(bytes_read(o).len() <= PROBE_LEN);
    assert(r == read_step(o));
    assert(read_buffer@ =~= old(read_buffer)@ + bytes_read(o));
    r
}

/// What a read's outcome does to the read buffer: the bytes that came are
/// appended; nothing read means the peer closed; an error closes unless it
/// only says that the read would block.
pub fn absorb_read(outcome: Result<Vec<u8>, StreamError>, read_buffer: &mut Vec<u8>) -> (r: (usize, bool))
    requires
        outcome matches Ok(v) ==> v@.len() <= PROBE_LEN,
    ensures
        match outcome {
            Ok(v) => if v@.len() == 0 {
                r == (0usize, true) && final(read_buffer)@ == old(read_buffer)@
            } else {
                r == (v@.len() as usize, false) && final(read_buffer)@ == old(read_buffer)@ + v@
            },
            Err(StreamError::WouldBlock) => r == (0usize, false) && final(read_buffer)@ == old(read_buffer)@,
            Err(StreamError::Other) => r == (0usize, true) && final(read_buffer)@ == old(read_buffer)@,
        },
{
    match outcome {
        Ok(bytes) => {
            if bytes.len() == 0 {
                return (0, true);
            }
            let ghost before = read_buffer@;
            let mut i: usize = 0;
            while i < bytes.len()
                invariant
                    i <= bytes@.len(),
                    read_buffer@ == before + bytes@.subrange(0, i as int),
                decreases bytes@.len() - i,
            {
                read_buffer.push(bytes[i]);
                i = i + 1;
                assert(read_buffer@ =~= before + bytes@.subrange(0, i as int));
            }
            assert(bytes@.subrange(0, bytes@.len() as int) =~= bytes@);
            (bytes.len(), false)
        },
        Err(StreamError::WouldBlock) => (0, false),
        Err(StreamError::Other) => (0, true),
    }
}

/// The bytes of `v` from `from` on, as a new vector.
fn tail_from(v: &Vec<u8>, from: usize) -> (r: Vec<u8>)
    requires
        from <= v@.len(),
    ensures
        r@ == v@.subrange(from as int, v@.len() as int),
{
    let mut out: Vec<u8> = Vec::new();
    let mut i: usize = from;
    while i < v.len()
        invariant
            from <= i <= v@.len(),
            out@ == v@.subrange(from as int, i as int),
        decreases v@.len() - i,
    {
        out.push(v[i]);
        i = i + 1;
        assert(out@ =~= v@.subrange(from as int, i as int));
    }
    out
}

/// Appends `data` to `v`.
fn append_bytes(v: &mut Vec<u8>, data: &[u8])
    ensures
        final(v)@ == old(v)@ + data@,
{
    let ghost before = v@;
    let mut i: usize = 0;
    while i < data.len()
        invariant
            i <= data@.len(),
            v@ == before + data@.subrange(0, i as int),
        decreases data@.len() - i,
    {
        v.push(data[i]);
        i = i + 1;
        assert(v@ =~= before + data@.subrange(0, i as int));
    }
    assert(data@.subrange(0, data@.len() as int) =~= data@);
}

/// Writes what is left in `write_buffer` and keeps only what did not go out.
/// Returns (should close, would block).
pub fn write_remaining<W: ByteWrite>(writer: &mut W, write_buffer: &mut Vec<u8>) -> (r: (bool, bool))
    ensures
        old(write_buffer)@.len() == 0 ==> r == (false, false) && final(write_buffer)@ == old(write_buffer)@,
        r.0 ==> !r.1 && final(write_buffer)@ == old(write_buffer)@,
        !r.0 ==> exists|k: int| 0 <= k <= old(write_buffer)@.len()
            && final(write_buffer)@ == old(write_buffer)@.subrange(k, old(write_buffer)@.len() as int),
        !r.0 && !r.1 ==> final(write_buffer)@.len() == 0,
        exists|calls: Seq<WriteCall>| #![trigger is_write_run(old(write_buffer)@, calls)]
            is_write_run(old(write_buffer)@, calls)
            && (W::keeps_writes() ==> final(writer).writes() == old(writer).writes() + calls)
            && r.0 == write_result(old(write_buffer)@, calls).1
            && r.1 == write_result(old(write_buffer)@, calls).2
            && final(write_buffer)@ == (if r.0 {
                old(write_buffer)@
            } else {
                old(write_buffer)@.subrange(taken(calls) as int, old(write_buffer)@.len() as int)
            }),
{
    let ghost before = write_buffer@;
    if write_buffer.len() == 0 {
        assert(before.subrange(0, 0) =~= before);
        assert(old(writer).writes() + Seq::<WriteCall>::empty() =~= old(writer).writes());
        assert(is_write_run(before, Seq::<WriteCall>::empty()));
        return (false, false);
    }
    let (amount_written, should_close, would_block) = write(writer, write_buffer.as_slice());
    let ghost calls = choose|calls: Seq<WriteCall>| is_write_run(before, calls)
        && (amount_written, should_close, would_block) == write_result(before, calls)
        && (W::keeps_writes() ==> writer.writes() == old(writer).writes() + calls);
    proof {
        lemma_run_result(before, calls);
    }
    if should_close {
        assert(is_write_run(before, calls));
        return (true, false);
    }
    let rest = tail_from(write_buffer, amount_written);
    *write_buffer = rest;
    assert(write_buffer@ == before.subrange(amount_written as int, before.len() as int));
    assert(is_write_run(before, calls));
    (false, would_block)
}

/// What the writes of one call of `try_write` look like, given the bytes
/// `buffered` when it started: the first write offers them when there were
/// any; only the last write can end the writing; the call closes exactly when
/// that write closes, and the connection stops being writeable exactly when
/// that write said that it would block.
pub open spec fn write_pass(buffered: Seq<u8>, calls: Seq<WriteCall>, close: bool, still_writeable: bool) -> bool {
    &&& buffered.len() > 0 ==> calls.len() > 0 && calls[0].0 == buffered
    &&& forall|i: int| 0 <= i < calls.len() - 1 ==> !stops(#[trigger] calls[i].1)
    &&& close <==> (calls.len() > 0 && closes(calls.last().1))
    &&& !still_writeable <==> (calls.len() > 0 && calls.last().1 == Err::<usize, StreamError>(StreamError::WouldBlock))
}

/// Sends what is buffered and then as many queued packets as the writer
/// takes. A packet that only partly went out is kept in `write_buffer`; when
/// the writer would block, the connection is marked not writeable. Returns
/// whether the connection must be closed.
///
/// The packets handled are those queued when the call starts; packets queued
/// meanwhile wait for the next call.
pub fn try_write<W: ByteWrite, P: PacketSource>(
    writer: &mut W,
    packet_buffer: &mut Vec<u8>,
    write_buffer: &mut Vec<u8>,
    packet_provider: &mut P,
    writeable: &mut bool,
    connected: &bool,
) -> (r: bool)
    ensures
        !*connected || !*old(writeable) ==> !r && *final(writeable) == *old(writeable)
            && final(write_buffer)@ == old(write_buffer)@
            && (W::keeps_writes() ==> final(writer).writes() == old(writer).writes()),
        r ==> *final(writeable) == *old(writeable),
        !r && *connected && *final(writeable) ==> final(write_buffer)@.len() == 0,
        *final(writeable) ==> *old(writeable),
        *connected && *old(writeable) ==> exists|calls: Seq<WriteCall>|
            #![trigger write_pass(old(write_buffer)@, calls, r, *final(writeable))]
            (W::keeps_writes() ==> final(writer).writes() == old(writer).writes() + calls)
            && write_pass(old(write_buffer)@, calls, r, *final(writeable)),
{
    if !*connected || !*writeable {
        return false;
    }
    let buffered_len: usize = write_buffer.len();
    let ghost buffered = write_buffer@;
    assert(buffered.len() == buffered_len);
    let (close, would_block) = write_remaining(writer, write_buffer);
    let ghost first = choose|calls: Seq<WriteCall>| #![trigger is_write_run(buffered, calls)]
        is_write_run(buffered, calls)
        && (W::keeps_writes() ==> writer.writes() == old(writer).writes() + calls)
        && close == write_result(buffered, calls).1
        && would_block == write_result(buffered, calls).2;
    proof {
        lemma_run_result(buffered, first);
    }
    if close {
        assert(write_pass(buffered, first, true, true));
        return true;
    }
    if !would_block {
        let ghost mut all: Seq<WriteCall> = first;
        let budget: usize = packet_provider.queued();
        let mut handled: usize = 0;
        while handled < budget
            invariant_except_break
                *writeable,
                write_buffer@.len() == 0,
            invariant
                handled <= budget,
                *old(writeable),
                *connected,
                W::keeps_writes() ==> writer.writes() == old(writer).writes() + all,
                buffered == old(write_buffer)@,
                buffered.len() > 0 ==> all.len() > 0 && all[0].0 == buffered,
                forall|i: int| 0 <= i < all.len() - 1 ==> !stops(#[trigger] all[i].1),
                all.len() > 0 ==> !closes(all.last().1),
                *writeable <==> !(all.len() > 0 && all.last().1 == Err::<usize, StreamError>(StreamError::WouldBlock)),
            ensures
                *writeable ==> write_buffer@.len() == 0,
            decreases budget - handled,
        {
            handled = handled + 1;
            packet_buffer.clear();
            if !packet_provider.next_packet(packet_buffer) {
                break;
            }
            let amount: usize = packet_buffer.len();
            let ghost data = packet_buffer@;
            let ghost before_writes = writer.writes();
            let (amount_written, should_close, blocked) = write(writer, packet_buffer.as_slice());
            let ghost more = choose|calls: Seq<WriteCall>| is_write_run(data, calls)
                && (amount_written, should_close, blocked) == write_result(data, calls)
                && (W::keeps_writes() ==> writer.writes() == before_writes + calls);
            proof {
                lemma_run_result(data, more);
                assert forall|i: int| 0 <= i < all.len() implies !stops(#[trigger] all[i].1) by {
                    if i == all.len() - 1 {
                        assert(all[i] == all.last());
                        lemma_stop_kinds(all.last().1);
                    }
                }
                lemma_join_calls(all, more);
                if W::keeps_writes() {
                    assert(writer.writes() =~= old(writer).writes() + (all + more));
                }
                all = all + more;
            }
            if should_close {
                assert(write_pass(buffered, all, true, true));
                return true;
            }
            if amount_written < amount {
                let rest = tail_from(packet_buffer, amount_written);
                append_bytes(write_buffer, rest.as_slice());
            }
            if blocked {
                *writeable = false;
                break;
            }
        }
        assert(write_pass(buffered, all, false, *writeable));
    } else {
        *writeable = false;
        assert(write_pass(buffered, first, false, false));
    }
    false
}

/// A write ends a run exactly when it closes the connection or would block.
pub proof fn lemma_stop_kinds(o: Result<usize, StreamError>)
    ensures
        stops(o) <==> (closes(o) || o == Err::<usize, StreamError>(StreamError::WouldBlock)),
{
    match o {
        Ok(n) => {},
        Err(StreamError::WouldBlock) => {},
        Err(StreamError::Other) => {},
    }
}

/// Joining the writes of a pass that none ended so far with the writes of
/// one more run: only the last can end the pass.
proof fn lemma_join_calls(all: Seq<WriteCall>, more: Seq<WriteCall>)
    requires
        forall|i: int| 0 <= i < all.len() ==> !stops(#[trigger] all[i].1),
        forall|i: int| 0 <= i < more.len() - 1 ==> !stops(#[trigger] more[i].1),
    ensures
        forall|i: int| 0 <= i < (all + more).len() - 1 ==> !stops(#[trigger] (all + more)[i].1),
        more.len() > 0 ==> (all + more).last() == more.last(),
        more.len() == 0 ==> all + more == all,
        all.len() > 0 ==> (all + more)[0] == all[0],
{
    assert forall|i: int| 0 <= i < (all + more).len() - 1 implies !stops(#[trigger] (all + more)[i].1) by {
        if i < all.len() {
            assert((all + more)[i] == all[i]);
        } else {
            assert((all + more)[i] == more[i - all.len()]);
        }
    }
    if more.len() == 0 {
        assert(all + more =~= all);
    }
}

/// What one read with outcome `o` and the decoding after it may give, with
/// the read buffer `before` and `after`: a read that closes or would block
/// leaves the buffer alone; after a read of data the decoder either fails,
/// leaving the buffer with the data appended, or consumes some front part of
/// it.
pub open spec fn read_progress(o: Result<Seq<u8>, StreamError>, before: Seq<u8>, r: ReadProgress, after: Seq<u8>) -> bool {
    let whole = before + bytes_read(o);
    if read_step(o).1 {
        r == ReadProgress::Close && after == before
    } else if bytes_read(o).len() == 0 {
        r == ReadProgress::WouldBlock && after == before
    } else {
        ||| r == ReadProgress::Close && after == whole
        ||| r == ReadProgress::Continue && exists|k: int| 0 <= k <= whole.len() && after == #[trigger] whole.subrange(k, whole.len() as int)
    }
}

/// Reads once from `reader` and decodes every complete packet now in
/// `read_buffer`, handing each to `sink`; the bytes of a packet not yet
/// complete stay in the buffer for the next read.
pub fn try_read_once<R: ByteRead, S: PacketSink>(
    reader: &mut R,
    read_buffer: &mut Vec<u8>,
    sink: &mut S,
) -> (r: ReadProgress)
    ensures
        exists|o: Result<Seq<u8>, StreamError>|
            #![trigger read_progress(o, old(read_buffer)@, r, final(read_buffer)@)]
            (R::keeps_reads() ==> final(reader).reads() == old(reader).reads().push(o))
            && read_progress(o, old(read_buffer)@, r, final(read_buffer)@),
{
    let (amount_read, should_close) = read(reader, read_buffer);
    let ghost o = choose|o: Result<Seq<u8>, StreamError>| (R::keeps_reads() ==> reader.reads() == old(reader).reads().push(o))
        && bytes_read(o).len() <= PROBE_LEN
        && (amount_read, should_close) == read_step(o)
        && read_buffer@ == old(read_buffer)@ + bytes_read(o);
    let ghost appended = bytes_read(o);
    if should_close {
        assert(read_buffer@ =~= old(read_buffer)@);
        assert(read_progress(o, old(read_buffer)@, ReadProgress::Close, read_buffer@));
        return ReadProgress::Close;
    }
    if amount_read == 0 {
        assert(read_buffer@ =~= old(read_buffer)@);
        assert(read_progress(o, old(read_buffer)@, ReadProgress::WouldBlock, read_buffer@));
        return ReadProgress::WouldBlock;
    }
    let len: usize = read_buffer.len();
    let mut last_safe: usize = 0;
    loop
        invariant
            last_safe <= len,
            len == read_buffer@.len(),
            read_buffer@ == old(read_buffer)@ + appended,
            appended == bytes_read(o),
            appended.len() > 0,
            !read_step(o).1,
            R::keeps_reads() ==> reader.reads() == old(reader).reads().push(o),
        decreases len - last_safe,
    {
        let rest: &[u8] = slice_subrange(read_buffer.as_slice(), last_safe, len);
        match sink.decode_one(rest) {
            Decoded::Packet(consumed) => {
                if consumed == 0 || consumed > len - last_safe {
                    assert(read_progress(o, old(read_buffer)@, ReadProgress::Close, read_buffer@));
                    return ReadProgress::Close;
                }
                last_safe = last_safe + consumed;
            },
            Decoded::Invalid => {
                assert(read_progress(o, old(read_buffer)@, ReadProgress::Close, read_buffer@));
                return ReadProgress::Close;
            },
            Decoded::Incomplete => {
                break;
            },
        }
    }
    if last_safe != 0 {
        let rest = tail_from(read_buffer, last_safe);
        *read_buffer = rest;
    }
    assert(read_buffer@ == (old(read_buffer)@ + appended).subrange(last_safe as int, (old(read_buffer)@.len() + appended.len()) as int));
    assert(read_progress(o, old(read_buffer)@, ReadProgress::Continue, read_buffer@));
    ReadProgress::Continue
}

} // verus!
