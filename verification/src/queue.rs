//! The byte queue that the ring buffer implements, as a mathematical model.
//!
//! A queue is a sequence of bytes, oldest first, that never holds more than
//! `cap` bytes. The functions here say what writing and reading do to it; the
//! proof functions state what follows for every sequence of operations.

use vstd::prelude::*;

verus! {

/// One operation on a queue.
pub enum Op {
    /// An attempt to queue the given byte.
    Write(u8),
    /// An attempt to take the oldest byte.
    Read,
}

/// The queue after an attempt to write `byte`: the byte is added behind all
/// others, or dropped where `cap` bytes are queued already.
pub open spec fn write(q: Seq<u8>, cap: nat, byte: u8) -> Seq<u8> {
    if q.len() < cap {
        q.push(byte)
    } else {
        q
    }
}

/// The byte that a read returns: the oldest one, if any is queued.
pub open spec fn front(q: Seq<u8>) -> Option<u8> {
    if q.len() > 0 {
        Some(q[0])
    } else {
        None
    }
}

/// The queue after a read: the oldest byte is gone.
pub open spec fn read(q: Seq<u8>) -> Seq<u8> {
    if q.len() > 0 {
        q.drop_first()
    } else {
        q
    }
}

/// The queue after one operation.
pub open spec fn step(q: Seq<u8>, cap: nat, op: Op) -> Seq<u8> {
    match op {
        Op::Write(byte) => write(q, cap, byte),
        Op::Read => read(q),
    }
}

/// The queue after the operations `ops`, carried out in order.
pub open spec fn run(q: Seq<u8>, cap: nat, ops: Seq<Op>) -> Seq<u8>
    decreases ops.len(),
{
    if ops.len() == 0 {
        q
    } else {
        step(run(q, cap, ops.drop_last()), cap, ops.last())
    }
}

/// The bytes that the writes among `ops` queued, in order: those of the
/// writes that found room.
pub open spec fn accepted(q: Seq<u8>, cap: nat, ops: Seq<Op>) -> Seq<u8>
    decreases ops.len(),
{
    if ops.len() == 0 {
        Seq::empty()
    } else {
        let earlier = accepted(q, cap, ops.drop_last());
        match ops.last() {
            Op::Write(byte) if run(q, cap, ops.drop_last()).len() < cap => earlier.push(byte),
            _ => earlier,
        }
    }
}

/// The bytes that the reads among `ops` returned, in order.
pub open spec fn delivered(q: Seq<u8>, cap: nat, ops: Seq<Op>) -> Seq<u8>
    decreases ops.len(),
{
    if ops.len() == 0 {
        Seq::empty()
    } else {
        let earlier = delivered(q, cap, ops.drop_last());
        match (ops.last(), front(run(q, cap, ops.drop_last()))) {
            (Op::Read, Some(byte)) => earlier.push(byte),
            _ => earlier,
        }
    }
}

/// The queue after an attempt to write each byte of `bytes` in turn: `q`
/// followed by as many leading bytes of `bytes` as there is room for.
pub open spec fn append(q: Seq<u8>, cap: nat, bytes: Seq<u8>) -> Seq<u8> {
    let room = if q.len() < cap {
        cap - q.len()
    } else {
        0
    };
    if bytes.len() <= room {
        q + bytes
    } else {
        q + bytes.take(room)
    }
}

/// The writes of `bytes`, one operation for each byte.
pub open spec fn writes(bytes: Seq<u8>) -> Seq<Op> {
    Seq::new(bytes.len(), |i: int| Op::Write(bytes[i]))
}

/// `n` reads in a row.
pub open spec fn reads(n: nat) -> Seq<Op> {
    Seq::new(n, |i: int| Op::Read)
}

/// However writes and reads follow each other, the queue never holds more
/// than `cap` bytes, and it holds exactly the bytes that were queued and not
/// yet read: their number is that of the accepted bytes less that of the
/// delivered ones.
pub proof fn lemma_occupancy(q: Seq<u8>, cap: nat, ops: Seq<Op>)
    requires
        q.len() <= cap,
    ensures
        run(q, cap, ops).len() <= cap,
        run(q, cap, ops).len() == q.len() + accepted(q, cap, ops).len() - delivered(
            q,
            cap,
            ops,
        ).len(),
    decreases ops.len(),
{
    if ops.len() > 0 {
        lemma_occupancy(q, cap, ops.drop_last());
    }
}

/// First in, first out: however writes and reads follow each other, the
/// bytes read so far, followed by the bytes still queued, are the bytes
/// queued at the start followed by the accepted ones, in the order written.
/// So what has been read is the beginning of what was written: no byte is
/// read twice, none is skipped, and none is read that was not written.
pub proof fn lemma_fifo(q: Seq<u8>, cap: nat, ops: Seq<Op>)
    ensures
        delivered(q, cap, ops) + run(q, cap, ops) == q + accepted(q, cap, ops),
        delivered(q, cap, ops) == (q + accepted(q, cap, ops)).take(
            delivered(q, cap, ops).len() as int,
        ),
    decreases ops.len(),
{
    lemma_fifo_sum(q, cap, ops);
    let d = delivered(q, cap, ops);
    assert((d + run(q, cap, ops)).take(d.len() as int) =~= d);
}

/// The first statement of [`lemma_fifo`].
proof fn lemma_fifo_sum(q: Seq<u8>, cap: nat, ops: Seq<Op>)
    ensures
        delivered(q, cap, ops) + run(q, cap, ops) == q + accepted(q, cap, ops),
    decreases ops.len(),
{
    if ops.len() == 0 {
        assert(delivered(q, cap, ops) + run(q, cap, ops) =~= q + accepted(q, cap, ops));
    } else {
        let before = ops.drop_last();
        lemma_fifo_sum(q, cap, before);
        let d = delivered(q, cap, before);
        let r = run(q, cap, before);
        let a = accepted(q, cap, before);
        assert(d + r == q + a);
        match ops.last() {
            Op::Write(byte) => {
                if r.len() < cap {
                    assert(d + r.push(byte) =~= (d + r).push(byte));
                    assert(q + a.push(byte) =~= (q + a).push(byte));
                }
            },
            Op::Read => {
                if r.len() > 0 {
                    assert(d.push(r[0]) + r.drop_first() =~= d + r);
                }
            },
        }
    }
}

/// A write to a full queue changes nothing. Once a byte has been read from
/// the full queue a write finds room, and the queue is full again: it holds
/// what it held before, less the oldest byte, with the new byte last.
pub proof fn lemma_full(q: Seq<u8>, cap: nat, rejected: u8, byte: u8)
    requires
        q.len() == cap,
        cap > 0,
    ensures
        write(q, cap, rejected) == q,
        front(q) == Some(q[0]),
        write(read(q), cap, byte) == q.drop_first().push(byte),
        write(read(q), cap, byte).len() == cap,
{
}

/// Writing bytes one by one queues as many leading bytes as fit.
pub proof fn lemma_append_is_run(q: Seq<u8>, cap: nat, bytes: Seq<u8>)
    requires
        q.len() <= cap,
    ensures
        run(q, cap, writes(bytes)) == append(q, cap, bytes),
    decreases bytes.len(),
{
    if bytes.len() == 0 {
        assert(append(q, cap, bytes) =~= q);
    } else {
        let head = bytes.drop_last();
        lemma_append_is_run(q, cap, head);
        assert(writes(bytes).drop_last() =~= writes(head));
        assert(writes(bytes).last() == Op::Write(bytes.last()));
        assert(append(q, cap, bytes) =~= write(append(q, cap, head), cap, bytes.last()));
    }
}

/// Carrying out `first` and then `then` is carrying out both in a row: the
/// second part starts from the queue that the first part leaves, and what
/// is accepted and delivered adds up.
pub proof fn lemma_run_concat(q: Seq<u8>, cap: nat, first: Seq<Op>, then: Seq<Op>)
    ensures
        run(q, cap, first + then) == run(run(q, cap, first), cap, then),
        accepted(q, cap, first + then) == accepted(q, cap, first) + accepted(
            run(q, cap, first),
            cap,
            then,
        ),
        delivered(q, cap, first + then) == delivered(q, cap, first) + delivered(
            run(q, cap, first),
            cap,
            then,
        ),
    decreases then.len(),
{
    let mid = run(q, cap, first);
    if then.len() == 0 {
        assert(first + then =~= first);
        assert(accepted(q, cap, first) + accepted(mid, cap, then) =~= accepted(q, cap, first));
        assert(delivered(q, cap, first) + delivered(mid, cap, then) =~= delivered(q, cap, first));
    } else {
        let head = then.drop_last();
        lemma_run_concat(q, cap, first, head);
        assert((first + then).drop_last() =~= first + head);
        assert((first + then).last() == then.last());
        let before = run(mid, cap, head);
        match then.last() {
            Op::Write(byte) => {
                if before.len() < cap {
                    assert(accepted(q, cap, first) + accepted(mid, cap, head).push(byte)
                        =~= (accepted(q, cap, first) + accepted(mid, cap, head)).push(byte));
                }
            },
            Op::Read => {
                if before.len() > 0 {
                    assert(delivered(q, cap, first) + delivered(mid, cap, head).push(before[0])
                        =~= (delivered(q, cap, first) + delivered(mid, cap, head)).push(
                        before[0],
                    ));
                }
            },
        }
    }
}

/// Reads in a row, with no write between them, deliver the oldest bytes in
/// the order in which they were queued: `n` of them, or all where fewer
/// are queued. The bytes behind them stay.
pub proof fn lemma_reads(q: Seq<u8>, cap: nat, n: nat)
    ensures
        delivered(q, cap, reads(n)) == q.take(if n <= q.len() { n as int } else { q.len() as int }),
        run(q, cap, reads(n)) == q.skip(if n <= q.len() { n as int } else { q.len() as int }),
        accepted(q, cap, reads(n)) == Seq::<u8>::empty(),
    decreases n,
{
    if n == 0 {
        assert(delivered(q, cap, reads(n)) =~= q.take(0));
        assert(run(q, cap, reads(n)) =~= q.skip(0));
    } else {
        let m = (n - 1) as nat;
        lemma_reads(q, cap, m);
        assert(reads(n).drop_last() =~= reads(m));
        assert(reads(n).last() == Op::Read);
        if m < q.len() {
            assert(q.skip(m as int).drop_first() =~= q.skip(n as int));
            assert(q.take(m as int).push(q.skip(m as int)[0]) =~= q.take(n as int));
        }
    }
}

/// Writes in a row deliver nothing, and they queue as many leading bytes as
/// fit (see [`lemma_append_is_run`]).
pub proof fn lemma_writes(q: Seq<u8>, cap: nat, bytes: Seq<u8>)
    requires
        q.len() <= cap,
    ensures
        delivered(q, cap, writes(bytes)) == Seq::<u8>::empty(),
        q + accepted(q, cap, writes(bytes)) == append(q, cap, bytes),
    decreases bytes.len(),
{
    lemma_fifo(q, cap, writes(bytes));
    lemma_append_is_run(q, cap, bytes);
    if bytes.len() > 0 {
        let head = bytes.drop_last();
        lemma_writes(q, cap, head);
        assert(writes(bytes).drop_last() =~= writes(head));
        assert(writes(bytes).last() == Op::Write(bytes.last()));
    }
    assert(delivered(q, cap, writes(bytes)) + run(q, cap, writes(bytes)) =~= run(
        q,
        cap,
        writes(bytes),
    ));
}

/// What is written comes back as written: bytes that fit into an empty
/// queue, written one by one and then read one by one, are read in the
/// order written, and the queue is empty again.
pub proof fn lemma_round_trip(cap: nat, bytes: Seq<u8>)
    requires
        bytes.len() <= cap,
    ensures
        delivered(Seq::empty(), cap, writes(bytes) + reads(bytes.len())) == bytes,
        run(Seq::empty(), cap, writes(bytes) + reads(bytes.len())) == Seq::<u8>::empty(),
{
    let empty = Seq::<u8>::empty();
    lemma_run_concat(empty, cap, writes(bytes), reads(bytes.len()));
    lemma_writes(empty, cap, bytes);
    lemma_append_is_run(empty, cap, bytes);
    assert(append(empty, cap, bytes) =~= bytes);
    lemma_reads(bytes, cap, bytes.len());
    assert(bytes.take(bytes.len() as int) =~= bytes);
    assert(bytes.skip(bytes.len() as int) =~= empty);
    assert(empty + bytes =~= bytes);
}

/// A write that comes between two reads, as from an interrupt, is one
/// operation like any other: the byte is queued whole behind all that is
/// queued, or not at all. Where bytes are queued and there is room, it makes
/// no difference whether the write comes before a read or after it: the
/// read returns the same byte and the queue ends up the same. Where the
/// queue is empty, the read that comes before the write finds nothing, and
/// the one that comes after it gets the byte.
pub proof fn lemma_write_races_read(q: Seq<u8>, cap: nat, byte: u8)
    requires
        q.len() <= cap,
    ensures
        0 < q.len() < cap ==> {
            &&& front(write(q, cap, byte)) == front(q)
            &&& read(write(q, cap, byte)) == write(read(q), cap, byte)
        },
        q.len() == 0 && cap > 0 ==> {
            &&& front(q) is None
            &&& front(write(q, cap, byte)) == Some(byte)
            &&& write(read(q), cap, byte) == seq![byte]
            &&& read(write(q, cap, byte)) == q
        },
{
    if 0 < q.len() < cap {
        assert(q.push(byte).drop_first() =~= q.drop_first().push(byte));
    }
    if q.len() == 0 && cap > 0 {
        assert(q.push(byte) =~= seq![byte]);
        assert(q.push(byte).drop_first() =~= q);
    }
}

/// Appending in two parts is appending the whole.
pub proof fn lemma_append_append(q: Seq<u8>, cap: nat, a: Seq<u8>, b: Seq<u8>)
    ensures
        append(append(q, cap, a), cap, b) == append(q, cap, a + b),
{
    assert(append(append(q, cap, a), cap, b) =~= append(q, cap, a + b));
}

} // verus!
