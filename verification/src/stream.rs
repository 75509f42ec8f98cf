//! Non-blocking byte streams, as seen by the networking code.

use vstd::prelude::*;

verus! {

/// Why a stream operation did not transfer data.
#[derive(Debug, Clone, Copy, PartialEq, Eq)]
pub enum StreamError {
    /// The operation would block; try again on the next readiness event.
    WouldBlock,
    /// Any other failure of the underlying stream.
    Other,
}

/// One write to a sink: the bytes offered and what the sink answered.
pub type WriteCall = (Seq<u8>, Result<usize, StreamError>);

/// A non-blocking sink of bytes (a socket, a file, a memory buffer).
///
/// An implementation retries interrupted calls itself, and reports how many
/// bytes of `data` it accepted; `Ok(0)` means the peer closed the stream.
pub trait ByteWrite {
    /// Whether the implementation keeps the record `writes`. Only an
    /// implementation that says so promises the record; the default says no.
    closed spec fn keeps_writes() -> bool {
        false
    }

    /// The writes so far, oldest first, when the implementation keeps them.
    closed spec fn writes(&self) -> Seq<WriteCall> {
        Seq::empty()
    }

    fn write_bytes(&mut self, data: &[u8]) -> (r: Result<usize, StreamError>)
        ensures
            r matches Ok(n) ==> n <= data@.len(),
            Self::keeps_writes() ==> final(self).writes() == old(self).writes().push((data@, r)),
    ;
}

/// How many bytes a write with answer `o` took.
pub open spec fn taken_by(o: Result<usize, StreamError>) -> nat {
    match o {
        Ok(n) => n as nat,
        Err(_) => 0,
    }
}

/// How many bytes the writes `calls` took together.
pub open spec fn taken(calls: Seq<WriteCall>) -> nat
    decreases calls.len(),
{
    if calls.len() == 0 {
        0
    } else {
        taken(calls.drop_last()) + taken_by(calls.last().1)
    }
}

/// Whether a write with answer `o` ends a run of writes: the sink took
/// nothing (it is closed), would block, or failed.
pub open spec fn stops(o: Result<usize, StreamError>) -> bool {
    match o {
        Ok(n) => n == 0,
        Err(_) => true,
    }
}

/// Whether `calls` can begin a run of writes of `data`: before each of them
/// something was left, each offered what the ones before had not taken, and
/// none ended the run.
pub open spec fn run_so_far(data: Seq<u8>, calls: Seq<WriteCall>) -> bool {
    &&& forall|i: int| 0 <= i < calls.len() ==> taken(#[trigger] calls.take(i)) < data.len()
        && calls[i].0 == data.subrange(taken(calls.take(i)) as int, data.len() as int)
        && !stops(calls[i].1)
    &&& taken(calls) <= data.len()
}

/// Whether `calls` are a whole run of writes of `data`: writes are made while
/// something is left, each offering what is left, until everything is taken
/// or a write ends the run. No write at all when `data` is empty.
pub open spec fn is_write_run(data: Seq<u8>, calls: Seq<WriteCall>) -> bool {
    if calls.len() == 0 {
        data.len() == 0
    } else {
        &&& run_so_far(data, calls.drop_last())
        &&& taken(calls.drop_last()) < data.len()
        &&& calls.last().0 == data.subrange(taken(calls.drop_last()) as int, data.len() as int)
        &&& taken(calls) <= data.len()
        &&& stops(calls.last().1) || taken(calls) == data.len()
    }
}

/// A run of writes goes on by one write that offers what is left.
pub proof fn lemma_run_push(data: Seq<u8>, calls: Seq<WriteCall>, c: WriteCall)
    requires
        run_so_far(data, calls),
        taken(calls) < data.len(),
        c.0 == data.subrange(taken(calls) as int, data.len() as int),
        taken_by(c.1) <= data.len() - taken(calls),
    ensures
        calls.push(c).drop_last() == calls,
        taken(calls.push(c)) == taken(calls) + taken_by(c.1),
        !stops(c.1) ==> run_so_far(data, calls.push(c)),
        stops(c.1) || taken(calls.push(c)) == data.len() ==> is_write_run(data, calls.push(c)),
{
    let next = calls.push(c);
    assert(next.drop_last() =~= calls);
    if !stops(c.1) {
        assert forall|i: int| 0 <= i < next.len() implies taken(#[trigger] next.take(i)) < data.len()
            && next[i].0 == data.subrange(taken(next.take(i)) as int, data.len() as int)
            && !stops(next[i].1) by {
            if i < calls.len() {
                assert(next.take(i) =~= calls.take(i));
                assert(calls.take(i) == calls.take(i));
            } else {
                assert(next.take(i) =~= calls);
            }
        }
    }
}

/// No write yet is the start of any run.
pub proof fn lemma_run_empty(data: Seq<u8>)
    ensures
        run_so_far(data, Seq::<WriteCall>::empty()),
        taken(Seq::<WriteCall>::empty()) == 0,
{
}

/// What a read handed back, as a plain value.
pub open spec fn read_outcome(r: Result<Vec<u8>, StreamError>) -> Result<Seq<u8>, StreamError> {
    match r {
        Ok(v) => Ok(v@),
        Err(e) => Err(e),
    }
}

/// The bytes that a read with this outcome handed back; none for an error.
pub open spec fn bytes_read(o: Result<Seq<u8>, StreamError>) -> Seq<u8> {
    match o {
        Ok(b) => b,
        Err(_) => Seq::empty(),
    }
}

/// A non-blocking source of bytes.
///
/// `read_bytes(max)` hands back at most `max` bytes; an empty result means
/// that the peer closed the stream.
pub trait ByteRead {
    /// Whether the implementation keeps the record `reads`. Only an
    /// implementation that says so promises the record; the default says no.
    closed spec fn keeps_reads() -> bool {
        false
    }

    /// What the reads so far handed back, oldest first, when the
    /// implementation keeps them.
    closed spec fn reads(&self) -> Seq<Result<Seq<u8>, StreamError>> {
        Seq::empty()
    }

    fn read_bytes(&mut self, max: usize) -> (r: Result<Vec<u8>, StreamError>)
        ensures
            r matches Ok(v) ==> v@.len() <= max,
            Self::keeps_reads() ==> final(self).reads() == old(self).reads().push(read_outcome(r)),
    ;
}

/// An in-memory stream over a byte vector with a cursor position, the
/// analogue of `std::io::Cursor<Vec<u8>>`: writes overwrite from the cursor on
/// and extend the vector, reads copy from the cursor on.
pub struct MemoryStream {
    data: Vec<u8>,
    position: usize,
    read_log: Ghost<Seq<Result<Seq<u8>, StreamError>>>,
    write_log: Ghost<Seq<WriteCall>>,
}

/// The contents of a memory stream after `data` was written at `pos`: the
/// old contents, padded with zeros up to `pos`, overwritten by `data` from
/// `pos` on.
pub open spec fn written_at(old_contents: Seq<u8>, pos: nat, data: Seq<u8>) -> Seq<u8> {
    let end = pos + data.len();
    let len = if old_contents.len() > end { old_contents.len() } else { end };
    Seq::new(
        len,
        |i: int|
            if pos <= i < end {
                data[i - pos]
            } else if i < old_contents.len() {
                old_contents[i]
            } else {
                0u8
            },
    )
}

/// What a read of at most `max` bytes at `pos` hands back.
pub open spec fn read_at(contents: Seq<u8>, pos: nat, max: nat) -> Seq<u8> {
    if pos >= contents.len() {
        Seq::empty()
    } else if pos + max <= contents.len() {
        contents.subrange(pos as int, (pos + max) as int)
    } else {
        contents.subrange(pos as int, contents.len() as int)
    }
}

/// Memory stream law: reading back from where data was written, as much as
/// was written, gives the data.
pub proof fn lemma_read_back_written(contents: Seq<u8>, pos: nat, data: Seq<u8>)
    ensures
        read_at(written_at(contents, pos, data), pos, data.len()) == data,
{
    let w = written_at(contents, pos, data);
    if data.len() == 0 {
        assert(read_at(w, pos, 0) =~= data);
    } else {
        assert(w.subrange(pos as int, (pos + data.len()) as int) =~= data);
    }
}

impl MemoryStream {
    pub closed spec fn contents(&self) -> Seq<u8> {
        self.data@
    }

    pub closed spec fn pos(&self) -> nat {
        self.position as nat
    }

    /// A stream over `data` with the cursor at the start.
    pub fn new(data: Vec<u8>) -> (s: Self)
        ensures
            s.contents() == data@,
            s.pos() == 0,
            s.reads() == Seq::<Result<Seq<u8>, StreamError>>::empty(),
            s.writes() == Seq::<WriteCall>::empty(),
    {
        MemoryStream { data, position: 0, read_log: Ghost(Seq::empty()), write_log: Ghost(Seq::empty()) }
    }

    pub fn get_ref(&self) -> (r: &Vec<u8>)
        ensures
            r@ == self.contents(),
    {
        &self.data
    }

    pub fn position(&self) -> (r: usize)
        ensures
            r == self.pos(),
    {
        self.position
    }

    /// Moves the cursor; a position past the end is allowed, as for a cursor.
    pub fn set_position(&mut self, position: usize)
        ensures
            final(self).contents() == old(self).contents(),
            final(self).pos() == position,
    {
        self.position = position;
    }
}

impl ByteWrite for MemoryStream {
    open spec fn keeps_writes() -> bool {
        true
    }

    closed spec fn writes(&self) -> Seq<WriteCall> {
        self.write_log@
    }

    /// Writes all of `data` at the cursor, padding with zeros when the cursor
    /// stands past the end, and moves the cursor behind what was written.
    fn write_bytes(&mut self, data: &[u8]) -> (r: Result<usize, StreamError>)
        ensures
            old(self).pos() + data@.len() <= usize::MAX ==> {
                &&& r == Ok::<usize, StreamError>(data@.len() as usize)
                &&& final(self).contents() == written_at(old(self).contents(), old(self).pos(), data@)
                &&& final(self).pos() == old(self).pos() + data@.len()
            },
            old(self).pos() + data@.len() > usize::MAX ==> r == Err::<usize, StreamError>(StreamError::Other)
                && final(self).contents() == old(self).contents() && final(self).pos() == old(self).pos(),
    {
        let ghost old_data = self.data@;
        let start: usize = self.position;
        if data.len() > usize::MAX - start {
            proof {
                self.write_log@ = self.write_log@.push((data@, Err(StreamError::Other)));
            }
            return Err(StreamError::Other);
        }
        while self.data.len() < start
            invariant
                self.data@.len() >= old_data.len(),
                self.write_log == old(self).write_log,
                forall|j: int| 0 <= j < old_data.len() ==> self.data@[j] == old_data[j],
                forall|j: int| old_data.len() <= j < self.data@.len() ==> self.data@[j] == 0u8,
                old_data.len() >= start ==> self.data@.len() == old_data.len(),
                old_data.len() < start ==> self.data@.len() <= start,
            decreases start - self.data.len(),
        {
            self.data.push(0);
        }
        let ghost padded = self.data@;
        let mut i: usize = 0;
        while i < data.len()
            invariant
                i <= data.len(),
                start + data.len() <= usize::MAX,
                self.write_log == old(self).write_log,
                self.data.len() >= start + i,
                self.data@.len() == if padded.len() > start + i { padded.len() } else { (start + i) as nat },
                padded.len() >= start,
                forall|j: int| 0 <= j < old_data.len() ==> padded[j] == old_data[j],
                forall|j: int| old_data.len() <= j < padded.len() ==> padded[j] == 0u8,
                padded.len() == if old_data.len() > start { old_data.len() } else { start as nat },
                forall|j: int| start <= j < start + i ==> self.data@[j] == data@[j - start],
                forall|j: int| 0 <= j < start ==> self.data@[j] == padded[j],
                forall|j: int| start + i <= j < padded.len() ==> self.data@[j] == padded[j],
            decreases data.len() - i,
        {
            let at: usize = start + i;
            if at < self.data.len() {
                self.data.set(at, data[i]);
            } else {
                self.data.push(data[i]);
            }
            i = i + 1;
        }
        self.position = start + data.len();
        let ghost expected = written_at(old_data, start as nat, data@);
        assert(self.data@.len() == expected.len());
        assert forall|j: int| 0 <= j < expected.len() implies self.data@[j] == expected[j] by {
            if start <= j < start + data@.len() {
            } else if j < start {
                assert(self.data@[j] == padded[j]);
            } else {
                assert(self.data@[j] == padded[j]);
            }
        }
        assert(self.data@ =~= expected);
        proof {
            self.write_log@ = self.write_log@.push((data@, Ok(data@.len() as usize)));
        }
        Ok(data.len())
    }
}

impl ByteRead for MemoryStream {
    open spec fn keeps_reads() -> bool {
        true
    }

    closed spec fn reads(&self) -> Seq<Result<Seq<u8>, StreamError>> {
        self.read_log@
    }

    /// Copies up to `max` bytes from the cursor on and moves the cursor.
    fn read_bytes(&mut self, max: usize) -> (r: Result<Vec<u8>, StreamError>)
        ensures
            r matches Ok(v) && v@ == read_at(old(self).contents(), old(self).pos(), max as nat),
            final(self).contents() == old(self).contents(),
            final(self).pos() == if old(self).pos() >= old(self).contents().len() {
                old(self).pos()
            } else {
                old(self).pos() + read_at(old(self).contents(), old(self).pos(), max as nat).len()
            },
    {
        let ghost start = self.position;
        let ghost data0 = self.data@;
        let mut out: Vec<u8> = Vec::new();
        while out.len() < max && self.position < self.data.len()
            invariant
                out@.len() <= max,
                self.data@ == data0,
                self.read_log == old(self).read_log,
                self.position == start + out@.len(),
                start < self.data@.len() ==> self.position <= self.data@.len(),
                start >= self.data@.len() ==> out@.len() == 0,
                forall|j: int| 0 <= j < out@.len() ==> out@[j] == self.data@[start + j],
            decreases self.data.len() - self.position,
        {
            out.push(self.data[self.position]);
            self.position = self.position + 1;
        }
        assert(out@ =~= read_at(self.data@, start as nat, max as nat));
        proof {
            self.read_log@ = self.read_log@.push(Ok(out@));
        }
        Ok(out)
    }
}

} // verus!
