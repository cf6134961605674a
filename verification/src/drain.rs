//! What a drain is: which rings it may be asked to work on, where it ends,
//! what it delivers and what the caller gets back.
//!
//! Everything is stated over the bytes of the data area and the two offsets,
//! the producer's `head` and the consumer's `tail`.

use crate::error::PerfBufferError;
use crate::output::contents;
use crate::record::{
    header_at, lost_at, sample_at, sample_payload, LostSamples, PerfEventHeader, Sample,
    HEADER_SIZE, LOST_RECORD_SIZE, PERF_RECORD_LOST, PERF_RECORD_SAMPLE, SAMPLE_PAYLOAD_OFFSET,
};
use bytes::BytesMut;
use vstd::prelude::*;

verus! {

/// What one drain did.
#[derive(Debug, Clone, Copy, PartialEq, Eq, Structural)]
pub struct Events {
    /// Samples delivered, one per output buffer used.
    pub read: usize,
    /// Events that the producer reported as dropped.
    pub lost: usize,
}

/// The record at `offset` is whole: its size covers its header and what its
/// type says comes after it, which for a SAMPLE is the payload length and the
/// payload, and for a LOST record the `id` and the `count`.
pub open spec fn record_whole(data: Seq<u8>, offset: int) -> bool {
    let header = header_at(data, offset);
    &&& header.size >= HEADER_SIZE
    &&& header.type_ == PERF_RECORD_SAMPLE ==> header.size >= SAMPLE_PAYLOAD_OFFSET + sample_at(
        data,
        offset,
    ).size
    &&& header.type_ == PERF_RECORD_LOST ==> header.size >= LOST_RECORD_SIZE
}

/// The records from `tail` on are whole, follow one another without a gap,
/// and the last of them ends at `head`.
pub open spec fn records_chain(data: Seq<u8>, head: int, tail: int) -> bool
    decreases head - tail,
{
    if tail >= head {
        tail == head
    } else {
        let size = header_at(data, tail).size as int;
        &&& record_whole(data, tail)
        &&& size <= head - tail
        &&& records_chain(data, head, tail + size)
    }
}

/// The sum of the `count` fields of the LOST records between `tail` and `head`.
pub open spec fn lost_total(data: Seq<u8>, head: int, tail: int) -> nat
    decreases head - tail,
{
    let header = header_at(data, tail);
    if header.size == 0 || header.size > head - tail {
        0
    } else if header.type_ == PERF_RECORD_LOST {
        lost_at(data, tail).count as nat + lost_total(data, head, tail + header.size)
    } else {
        lost_total(data, head, tail + header.size)
    }
}

/// What a drain may be asked to work on: a data area that is not empty, whole
/// records from `tail` up to `head`, and no more dropped events reported there
/// than a `usize` can count.
pub open spec fn ring_ok(data: Seq<u8>, head: int, tail: int) -> bool {
    &&& data.len() > 0
    &&& records_chain(data, head, tail)
    &&& lost_total(data, head, tail) <= usize::MAX
}

/// Where a drain ends and what it has gathered on the way.
#[verifier::ext_equal]
pub struct Drained {
    /// The offset of the first record that was not consumed.
    pub tail: int,
    /// The payloads of the samples consumed, oldest first.
    pub payloads: Seq<Seq<u8>>,
    /// The sum of the counts of the LOST records consumed.
    pub lost: nat,
    /// The payload length of the sample at `tail`, where the drain ended
    /// there because the output buffer it was due cannot hold it.
    pub oversize: Option<int>,
}

/// The drain of the records between `tail` and `head` into output buffers of
/// the capacities `caps`, of which those before `used` are taken already.
///
/// The drain ends at `head`, or where no output buffer is left, or at a
/// sample that is longer than the capacity of the buffer it is due. A sample
/// takes the next buffer; a LOST record adds its count; any other record is
/// passed over.
pub open spec fn drain_from(
    data: Seq<u8>,
    head: int,
    tail: int,
    caps: Seq<int>,
    used: nat,
) -> Drained
    decreases head - tail,
{
    let header = header_at(data, tail);
    let next = tail + header.size;
    if header.size == 0 || header.size > head - tail || used >= caps.len() {
        Drained { tail, payloads: Seq::empty(), lost: 0, oversize: None }
    } else if header.type_ == PERF_RECORD_SAMPLE {
        let len = sample_at(data, tail).size as int;
        if len > caps[used as int] {
            Drained { tail, payloads: Seq::empty(), lost: 0, oversize: Some(len) }
        } else {
            let rest = drain_from(data, head, next, caps, used + 1);
            Drained {
                tail: rest.tail,
                payloads: seq![sample_payload(data, tail)] + rest.payloads,
                lost: rest.lost,
                oversize: rest.oversize,
            }
        }
    } else if header.type_ == PERF_RECORD_LOST {
        let rest = drain_from(data, head, next, caps, used);
        Drained {
            tail: rest.tail,
            payloads: rest.payloads,
            lost: lost_at(data, tail).count as nat + rest.lost,
            oversize: rest.oversize,
        }
    } else {
        drain_from(data, head, next, caps, used)
    }
}

/// The drain of the records between `tail` and `head` into output buffers of
/// the capacities `caps`.
pub open spec fn drain(data: Seq<u8>, head: int, tail: int, caps: Seq<int>) -> Drained {
    drain_from(data, head, tail, caps, 0)
}

/// `caps` names a capacity for each of `bufs`, none below the number of bytes
/// that the buffer holds.
pub open spec fn caps_cover(caps: Seq<int>, bufs: Seq<BytesMut>) -> bool {
    &&& caps.len() == bufs.len()
    &&& forall|i: int| 0 <= i < caps.len() ==> caps[i] >= contents(#[trigger] bufs[i]).len()
}

/// A drain failed: it ended at a sample too long for the first output buffer.
pub open spec fn drain_failed(d: Drained) -> bool {
    d.oversize is Some && d.payloads.len() == 0
}

/// What the caller gets back from the drain `d`.
pub open spec fn drain_result(d: Drained) -> Result<Events, PerfBufferError> {
    if drain_failed(d) {
        Err(PerfBufferError::MoreSpaceNeeded { size: d.oversize->0 as usize })
    } else {
        Ok(Events { read: d.payloads.len() as usize, lost: d.lost as usize })
    }
}

/// The consumer offset to publish after the drain `d` that began at `tail`:
/// that of the first record not consumed, and `tail` itself where the drain
/// failed.
pub open spec fn drain_tail(d: Drained, tail: int) -> int {
    if drain_failed(d) {
        tail
    } else {
        d.tail
    }
}

/// What the drain `d` leaves in the output buffers: each payload in the
/// buffer of its rank, and every other buffer as it was, also one that was
/// too small for the sample it was due.
pub open spec fn buffers_filled(d: Drained, before: Seq<BytesMut>, after: Seq<BytesMut>) -> bool {
    let used = d.payloads.len() as int;
    &&& after.len() == before.len()
    &&& used <= after.len()
    &&& d.oversize is Some ==> used < after.len()
    &&& forall|i: int| 0 <= i < used ==> contents(#[trigger] after[i]) == d.payloads[i]
    &&& forall|i: int| used <= i < after.len() ==> #[trigger] after[i] == before[i]
}

/// The drain of the records between `tail` and `head` into buffers of the
/// capacities `caps` has made the output buffers `before` into `after`, given
/// the caller `r` and left `new_tail` to publish. No capacity is below the
/// number of bytes that its buffer held.
pub open spec fn drained_with(
    caps: Seq<int>,
    data: Seq<u8>,
    head: int,
    tail: int,
    before: Seq<BytesMut>,
    after: Seq<BytesMut>,
    r: Result<Events, PerfBufferError>,
    new_tail: int,
) -> bool {
    let d = drain(data, head, tail, caps);
    &&& caps_cover(caps, before)
    &&& buffers_filled(d, before, after)
    &&& r == drain_result(d)
    &&& new_tail == drain_tail(d, tail)
}

/// The output buffers `before` have become `after`, the caller got `r` and is
/// to publish `new_tail`: all as in the drain of the records between `tail`
/// and `head` into buffers of some capacities, none below the number of bytes
/// that its buffer held.
pub open spec fn drained(
    data: Seq<u8>,
    head: int,
    tail: int,
    before: Seq<BytesMut>,
    after: Seq<BytesMut>,
    r: Result<Events, PerfBufferError>,
    new_tail: int,
) -> bool {
    exists|caps: Seq<int>| #[trigger] drained_with(caps, data, head, tail, before, after, r, new_tail)
}

/// Whether whole records lie between `tail` and `head` in a data area that is
/// not empty, with no more dropped events reported than a `usize` can count:
/// what a drain requires.
pub fn check_ring(data: &[u8], head: u64, tail: u64) -> (ok: bool)
    ensures
        ok == ring_ok(data@, head as int, tail as int),
{
    if data.len() == 0 || tail > head {
        return false;
    }
    let mut cur = tail;
    let mut lost: usize = 0;
    while cur != head
        invariant
            data@.len() > 0,
            tail <= cur <= head,
            records_chain(data@, head as int, tail as int) == records_chain(
                data@,
                head as int,
                cur as int,
            ),
            records_chain(data@, head as int, cur as int) ==> lost_total(
                data@,
                head as int,
                tail as int,
            ) == lost + lost_total(data@, head as int, cur as int),
        decreases head - cur,
    {
        let header = PerfEventHeader::read(data, cur);
        let size = header.size as u64;
        if size < HEADER_SIZE as u64 || size > head - cur {
            return false;
        }
        if header.type_ == PERF_RECORD_SAMPLE {
            let len = Sample::read(data, cur).size as u64;
            if size < SAMPLE_PAYLOAD_OFFSET as u64 + len {
                return false;
            }
        }
        if header.type_ == PERF_RECORD_LOST {
            if size < LOST_RECORD_SIZE as u64 {
                return false;
            }
            let count = LostSamples::read(data, cur).count;
            if count > (usize::MAX - lost) as u64 {
                return false;
            }
            lost = lost + count as usize;
        }
        cur = cur + size;
    }
    true
}

/// A drain of a ring in which nothing waits, with at least one output buffer,
/// reports no sample and no dropped event, and leaves the consumer offset and
/// every output buffer as they were.
pub proof fn law_empty_drain(
    data: Seq<u8>,
    head: int,
    before: Seq<BytesMut>,
    after: Seq<BytesMut>,
    r: Result<Events, PerfBufferError>,
    new_tail: int,
)
    requires
        before.len() > 0,
        drained(data, head, head, before, after, r, new_tail),
    ensures
        r == Ok::<Events, PerfBufferError>(Events { read: 0, lost: 0 }),
        new_tail == head,
        after == before,
{
    let caps = choose|caps: Seq<int>| #[trigger]
        drained_with(caps, data, head, head, before, after, r, new_tail);
    let d = drain(data, head, head, caps);
    assert(d.payloads.len() == 0);
    assert(after =~= before);
}

/// A drain of a ring in which a single LOST record waits reports no sample
/// and the record's count, leaves every output buffer as it was and moves the
/// consumer offset past the record.
pub proof fn law_lost_accounting(
    data: Seq<u8>,
    head: int,
    tail: int,
    before: Seq<BytesMut>,
    after: Seq<BytesMut>,
    r: Result<Events, PerfBufferError>,
    new_tail: int,
)
    requires
        before.len() > 0,
        header_at(data, tail).type_ == PERF_RECORD_LOST,
        header_at(data, tail).size > 0,
        head == tail + header_at(data, tail).size,
        drained(data, head, tail, before, after, r, new_tail),
    ensures
        r == Ok::<Events, PerfBufferError>(
            Events { read: 0, lost: lost_at(data, tail).count as usize },
        ),
        new_tail == head,
        after == before,
{
    let caps = choose|caps: Seq<int>| #[trigger]
        drained_with(caps, data, head, tail, before, after, r, new_tail);
    reveal_with_fuel(drain_from, 2);
    let d = drain(data, head, tail, caps);
    assert(d.payloads.len() == 0);
    assert(after =~= before);
}

/// A drain of a ring in which a single record waits that is neither a SAMPLE
/// nor a LOST record passes it over: it reports no sample and no dropped
/// event, leaves every output buffer as it was and moves the consumer offset
/// past the record.
pub proof fn law_other_records_passed_over(
    data: Seq<u8>,
    head: int,
    tail: int,
    before: Seq<BytesMut>,
    after: Seq<BytesMut>,
    r: Result<Events, PerfBufferError>,
    new_tail: int,
)
    requires
        before.len() > 0,
        header_at(data, tail).type_ != PERF_RECORD_SAMPLE,
        header_at(data, tail).type_ != PERF_RECORD_LOST,
        header_at(data, tail).size > 0,
        head == tail + header_at(data, tail).size,
        drained(data, head, tail, before, after, r, new_tail),
    ensures
        r == Ok::<Events, PerfBufferError>(Events { read: 0, lost: 0 }),
        new_tail == head,
        after == before,
{
    let caps = choose|caps: Seq<int>| #[trigger]
        drained_with(caps, data, head, tail, before, after, r, new_tail);
    reveal_with_fuel(drain_from, 2);
    let d = drain(data, head, tail, caps);
    assert(d.payloads.len() == 0);
    assert(after =~= before);
}

/// An output buffer has the capacity for as many bytes as it holds: a drain
/// of a ring in which a single SAMPLE record waits, whose payload is no
/// longer than what the first buffer holds, delivers the sample.
pub proof fn law_held_bytes_fit(
    data: Seq<u8>,
    head: int,
    tail: int,
    before: Seq<BytesMut>,
    after: Seq<BytesMut>,
    r: Result<Events, PerfBufferError>,
    new_tail: int,
)
    requires
        before.len() > 0,
        header_at(data, tail).type_ == PERF_RECORD_SAMPLE,
        header_at(data, tail).size > 0,
        head == tail + header_at(data, tail).size,
        sample_at(data, tail).size <= contents(before[0]).len(),
        drained(data, head, tail, before, after, r, new_tail),
    ensures
        r == Ok::<Events, PerfBufferError>(Events { read: 1, lost: 0 }),
        new_tail == head,
        contents(after[0]) == sample_payload(data, tail),
{
    let caps = choose|caps: Seq<int>| #[trigger]
        drained_with(caps, data, head, tail, before, after, r, new_tail);
    law_sample_round_trip(caps, data, head, tail, before, after, r, new_tail);
}

/// A drain of a ring in which a single SAMPLE record waits, into buffers of
/// which the first has the capacity for its payload, reports one sample and
/// no dropped event, leaves the payload in the first buffer and every other
/// buffer as it was, and moves the consumer offset past the record.
pub proof fn law_sample_round_trip(
    caps: Seq<int>,
    data: Seq<u8>,
    head: int,
    tail: int,
    before: Seq<BytesMut>,
    after: Seq<BytesMut>,
    r: Result<Events, PerfBufferError>,
    new_tail: int,
)
    requires
        before.len() > 0,
        header_at(data, tail).type_ == PERF_RECORD_SAMPLE,
        header_at(data, tail).size > 0,
        head == tail + header_at(data, tail).size,
        sample_at(data, tail).size <= caps[0],
        drained_with(caps, data, head, tail, before, after, r, new_tail),
    ensures
        r == Ok::<Events, PerfBufferError>(Events { read: 1, lost: 0 }),
        new_tail == head,
        contents(after[0]) == sample_payload(data, tail),
        forall|i: int| 1 <= i < after.len() ==> after[i] == before[i],
{
    reveal_with_fuel(drain_from, 2);
    let d = drain(data, head, tail, caps);
    assert(d.payloads =~= seq![sample_payload(data, tail)]);
}

/// A sample that is longer than the first output buffer can hold, with
/// nothing delivered before it, fails the drain with its length, and leaves
/// every output buffer and the consumer offset as they were.
pub proof fn law_more_space_needed(
    caps: Seq<int>,
    data: Seq<u8>,
    head: int,
    tail: int,
    before: Seq<BytesMut>,
    after: Seq<BytesMut>,
    r: Result<Events, PerfBufferError>,
    new_tail: int,
)
    requires
        before.len() > 0,
        header_at(data, tail).type_ == PERF_RECORD_SAMPLE,
        0 < header_at(data, tail).size <= head - tail,
        sample_at(data, tail).size > caps[0],
        drained_with(caps, data, head, tail, before, after, r, new_tail),
    ensures
        r == Err::<Events, PerfBufferError>(
            PerfBufferError::MoreSpaceNeeded { size: sample_at(data, tail).size as usize },
        ),
        new_tail == tail,
        after == before,
{
    assert(after =~= before);
}

/// A sample that is longer than its output buffer can hold, behind a sample
/// that was delivered, ends the drain before it: the drain reports the sample
/// delivered, leaves the consumer offset at the one that did not fit and its
/// buffer, with every later buffer, as it was.
pub proof fn law_drain_ends_before_oversize(
    caps: Seq<int>,
    data: Seq<u8>,
    head: int,
    tail: int,
    before: Seq<BytesMut>,
    after: Seq<BytesMut>,
    r: Result<Events, PerfBufferError>,
    new_tail: int,
)
    requires
        before.len() >= 2,
        header_at(data, tail).type_ == PERF_RECORD_SAMPLE,
        header_at(data, tail).size > 0,
        header_at(data, tail + header_at(data, tail).size).type_ == PERF_RECORD_SAMPLE,
        header_at(data, tail + header_at(data, tail).size).size > 0,
        head >= tail + header_at(data, tail).size + header_at(
            data,
            tail + header_at(data, tail).size,
        ).size,
        sample_at(data, tail).size <= caps[0],
        sample_at(data, tail + header_at(data, tail).size).size > caps[1],
        drained_with(caps, data, head, tail, before, after, r, new_tail),
    ensures
        r == Ok::<Events, PerfBufferError>(Events { read: 1, lost: 0 }),
        new_tail == tail + header_at(data, tail).size,
        contents(after[0]) == sample_payload(data, tail),
        forall|i: int| 1 <= i < after.len() ==> after[i] == before[i],
{
    reveal_with_fuel(drain_from, 2);
    let d = drain(data, head, tail, caps);
    assert(d.payloads =~= seq![sample_payload(data, tail)]);
}

/// With a single output buffer, a drain that begins at a SAMPLE record which
/// the buffer has the capacity for delivers that sample and ends behind it.
/// So two samples that wait one behind the other come out of two drains, one
/// each, the older first.
pub proof fn law_one_sample_per_drain(
    caps1: Seq<int>,
    caps2: Seq<int>,
    data: Seq<u8>,
    head: int,
    tail: int,
    before1: Seq<BytesMut>,
    after1: Seq<BytesMut>,
    r1: Result<Events, PerfBufferError>,
    tail1: int,
    before2: Seq<BytesMut>,
    after2: Seq<BytesMut>,
    r2: Result<Events, PerfBufferError>,
    tail2: int,
)
    requires
        before1.len() == 1,
        before2.len() == 1,
        header_at(data, tail).type_ == PERF_RECORD_SAMPLE,
        header_at(data, tail).size > 0,
        header_at(data, tail + header_at(data, tail).size).type_ == PERF_RECORD_SAMPLE,
        header_at(data, tail + header_at(data, tail).size).size > 0,
        head == tail + header_at(data, tail).size + header_at(
            data,
            tail + header_at(data, tail).size,
        ).size,
        sample_at(data, tail).size <= caps1[0],
        sample_at(data, tail + header_at(data, tail).size).size <= caps2[0],
        drained_with(caps1, data, head, tail, before1, after1, r1, tail1),
        drained_with(caps2, data, head, tail1, before2, after2, r2, tail2),
    ensures
        r1 == Ok::<Events, PerfBufferError>(Events { read: 1, lost: 0 }),
        tail1 == tail + header_at(data, tail).size,
        contents(after1[0]) == sample_payload(data, tail),
        r2 == Ok::<Events, PerfBufferError>(Events { read: 1, lost: 0 }),
        tail2 == head,
        contents(after2[0]) == sample_payload(data, tail + header_at(data, tail).size),
{
    reveal_with_fuel(drain_from, 2);
    let second = tail + header_at(data, tail).size;
    let d1 = drain(data, head, tail, caps1);
    assert(d1.payloads =~= seq![sample_payload(data, tail)]);
    let d2 = drain(data, head, second, caps2);
    assert(d2.payloads =~= seq![sample_payload(data, second)]);
}

/// A drain of a ring in which two SAMPLE records wait, into at least two
/// buffers with the capacities for their payloads, reports two samples and no
/// dropped event, leaves the older payload in the first buffer and the newer
/// in the second, every other buffer as it was, and moves the consumer offset
/// past both records.
pub proof fn law_samples_in_order(
    caps: Seq<int>,
    data: Seq<u8>,
    head: int,
    tail: int,
    before: Seq<BytesMut>,
    after: Seq<BytesMut>,
    r: Result<Events, PerfBufferError>,
    new_tail: int,
)
    requires
        before.len() >= 2,
        header_at(data, tail).type_ == PERF_RECORD_SAMPLE,
        header_at(data, tail).size > 0,
        header_at(data, tail + header_at(data, tail).size).type_ == PERF_RECORD_SAMPLE,
        header_at(data, tail + header_at(data, tail).size).size > 0,
        head == tail + header_at(data, tail).size + header_at(
            data,
            tail + header_at(data, tail).size,
        ).size,
        sample_at(data, tail).size <= caps[0],
        sample_at(data, tail + header_at(data, tail).size).size <= caps[1],
        drained_with(caps, data, head, tail, before, after, r, new_tail),
    ensures
        r == Ok::<Events, PerfBufferError>(Events { read: 2, lost: 0 }),
        new_tail == head,
        contents(after[0]) == sample_payload(data, tail),
        contents(after[1]) == sample_payload(data, tail + header_at(data, tail).size),
        forall|i: int| 2 <= i < after.len() ==> after[i] == before[i],
{
    reveal_with_fuel(drain_from, 3);
    let second = tail + header_at(data, tail).size;
    let d = drain(data, head, tail, caps);
    assert(d.payloads =~= seq![sample_payload(data, tail), sample_payload(data, second)]);
}

/// A drain consumes whole records only and never goes past the producer: the
/// offset it ends at lies between `tail` and `head`, and whole records lie
/// between it and `head`. It uses no more output buffers than there are, and
/// counts no more dropped events than are reported between `tail` and `head`.
pub proof fn law_whole_records(data: Seq<u8>, head: int, tail: int, caps: Seq<int>, used: nat)
    requires
        records_chain(data, head, tail),
        used <= caps.len(),
    ensures
        tail <= drain_from(data, head, tail, caps, used).tail <= head,
        records_chain(data, head, drain_from(data, head, tail, caps, used).tail),
        used + drain_from(data, head, tail, caps, used).payloads.len() <= caps.len(),
        drain_from(data, head, tail, caps, used).lost <= lost_total(data, head, tail),
    decreases head - tail,
{
    let header = header_at(data, tail);
    if header.size == 0 || header.size > head - tail || used >= caps.len() {
    } else if header.type_ == PERF_RECORD_SAMPLE {
        if sample_at(data, tail).size as int > caps[used as int] {
        } else {
            law_whole_records(data, head, tail + header.size, caps, used + 1);
        }
    } else {
        law_whole_records(data, head, tail + header.size, caps, used);
    }
}

} // verus!
