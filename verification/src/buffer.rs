//! One perf ring buffer: how it is laid out, and how a drain moves the
//! samples that wait in it into the caller's output buffers.
//!
//! The ring itself is memory shared with the producer. The functions here
//! work on what the caller has read from it: the bytes of the data area, the
//! producer offset `head` and the consumer offset `tail`. What they hand back
//! is what the caller has to publish.

use crate::drain::{
    buffers_filled, caps_cover, check_ring, drain, drain_from, drained, drained_with, lost_total,
    records_chain, ring_ok, Drained, Events,
};
use crate::error::PerfBufferError;
use crate::output::contents;
use crate::record::{
    lemma_mod_add, lemma_window_reduced, lost_at, ring_pos, ring_start, ring_window, sample_at,
    sample_payload, LostSamples, PerfEventHeader, Sample, PERF_RECORD_LOST, PERF_RECORD_SAMPLE,
    SAMPLE_PAYLOAD_OFFSET,
};
use bytes::BytesMut;
use std::io;
use vstd::arithmetic::div_mod::{lemma_fundamental_div_mod_converse, lemma_small_mod};
use vstd::arithmetic::power2::{is_pow2, is_pow2_equiv, is_pow2_exists};
use vstd::prelude::*;

verus! {

/// Appends to `out` the `len` bytes of the data area that start at position
/// `start`, going round the end of the area where the bytes do.
pub fn fill_buf(data: &[u8], start: usize, len: usize, out: &mut BytesMut)
    requires
        start < data@.len(),
        contents(*old(out)).len() + len <= isize::MAX,
    ensures
        contents(*final(out)) == contents(*old(out)) + ring_window(data@, start as int, len as int),
{
    let size = data.len();
    let mut pos = start;
    let mut done: usize = 0;
    proof {
        lemma_small_mod(start as nat, size as nat);
    }
    while done < len
        invariant
            size == data@.len(),
            pos < size,
            done <= len,
            pos == (start + done) % (size as int),
            contents(*old(out)).len() + len <= isize::MAX,
            contents(*out) == contents(*old(out)) + ring_window(data@, start as int, done as int),
        decreases len - done,
    {
        let chunk = if len - done < size - pos {
            len - done
        } else {
            size - pos
        };
        proof {
            let n = size as int;
            let grown = ring_window(data@, start as int, done + chunk);
            let joined = ring_window(data@, start as int, done as int) + data@.subrange(
                pos as int,
                pos + chunk,
            );
            assert forall|i: int| 0 <= i < done + chunk implies grown[i] == joined[i] by {
                if i >= done {
                    lemma_mod_add(start + done, i - done, n);
                    lemma_small_mod((pos + (i - done)) as nat, n as nat);
                }
            }
            assert(grown =~= joined);
            lemma_mod_add(start + done, chunk as int, n);
            if pos + chunk == size {
                lemma_fundamental_div_mod_converse(n, n, 1, 0);
            } else {
                lemma_small_mod((pos + chunk) as nat, n as nat);
            }
        }
        out.extend_from_slice(&data[pos..pos + chunk]);
        done = done + chunk;
        pos = if pos + chunk == size {
            0
        } else {
            pos + chunk
        };
    }
}

/// What reading the event at `event_start` gives, for an event of the type
/// `event_type` and an output buffer of the capacity `capacity`: for a SAMPLE
/// one sample read, or the failure that tells how many bytes are needed; for
/// a LOST record its count of dropped events; for any other event nothing.
pub open spec fn event_read(data: Seq<u8>, event_start: int, event_type: u32, capacity: int) -> Result<
    Option<(usize, usize)>,
    PerfBufferError,
> {
    if event_type == PERF_RECORD_SAMPLE {
        let size = sample_at(data, event_start).size;
        if size > capacity {
            Err(PerfBufferError::MoreSpaceNeeded { size: size as usize })
        } else {
            Ok(Some((1usize, 0usize)))
        }
    } else if event_type == PERF_RECORD_LOST {
        Ok(Some((0usize, lost_at(data, event_start).count as usize)))
    } else {
        Ok(None)
    }
}

/// Reads the event that starts at `event_start` and is of the type
/// `event_type`, for an output buffer `buf` that was found to have the
/// capacity `capacity`.
///
/// A SAMPLE whose payload is no longer than the capacity takes the buffer:
/// what the buffer held is dropped and the payload copied into it. For a
/// longer one the read fails. A LOST record gives its count, and any other
/// event nothing. Where no sample was copied the buffer is left as it is.
pub fn read_event(
    data: &[u8],
    event_start: u64,
    event_type: u32,
    capacity: usize,
    buf: &mut BytesMut,
) -> (r: Result<Option<(usize, usize)>, PerfBufferError>)
    requires
        data@.len() > 0,
        event_type == PERF_RECORD_SAMPLE ==> sample_at(data@, event_start as int).size
            <= isize::MAX,
        event_type == PERF_RECORD_LOST ==> lost_at(data@, event_start as int).count <= usize::MAX,
    ensures
        r == event_read(data@, event_start as int, event_type, capacity as int),
        event_type == PERF_RECORD_SAMPLE && r is Ok ==> contents(*final(buf)) == sample_payload(
            data@,
            event_start as int,
        ),
        event_type != PERF_RECORD_SAMPLE || r is Err ==> *final(buf) == *old(buf),
{
    if event_type == PERF_RECORD_SAMPLE {
        let sample_size = Sample::read(data, event_start).size as usize;
        if sample_size > capacity {
            return Err(PerfBufferError::MoreSpaceNeeded { size: sample_size });
        }
        buf.clear();
        let start = ring_pos(data.len(), ring_start(data, event_start), SAMPLE_PAYLOAD_OFFSET);
        fill_buf(data, start, sample_size, buf);
        proof {
            lemma_mod_add(event_start as int, SAMPLE_PAYLOAD_OFFSET as int, data@.len() as int);
            lemma_window_reduced(data@, event_start + SAMPLE_PAYLOAD_OFFSET, sample_size as int);
            assert(contents(*buf) =~= sample_payload(data@, event_start as int));
        }
        Ok(Some((1, 0)))
    } else if event_type == PERF_RECORD_LOST {
        let lost = LostSamples::read(data, event_start);
        Ok(Some((0, lost.count as usize)))
    } else {
        Ok(None)
    }
}

/// `caps` names `n` capacities, of which the first are those in `seen`.
spec fn caps_begin_with(caps: Seq<int>, seen: Seq<int>, n: int) -> bool {
    &&& caps.len() == n
    &&& seen.len() <= n
    &&& forall|i: int| 0 <= i < seen.len() ==> caps[i] == seen[i]
}

/// The capacities in `seen`, followed for each later buffer by the number of
/// bytes that it holds.
spec fn caps_seen(seen: Seq<int>, bufs: Seq<BytesMut>) -> Seq<int> {
    Seq::new(
        bufs.len(),
        |i: int|
            if i < seen.len() {
                seen[i]
            } else {
                contents(bufs[i]).len() as int
            },
    )
}

/// The drain `rest`, begun after the samples of `payloads` were delivered and
/// `lost` dropped events counted.
spec fn after_progress(payloads: Seq<Seq<u8>>, lost: nat, rest: Drained) -> Drained {
    Drained {
        tail: rest.tail,
        payloads: payloads + rest.payloads,
        lost: lost + rest.lost,
        oversize: rest.oversize,
    }
}

/// `usize::is_power_of_two` returns true if and only if the number is two to
/// some power.
pub assume_specification[ usize::is_power_of_two ](n: usize) -> (b: bool)
    ensures
        b == is_pow2_exists(n as int),
;

/// What the caller has to ask of the operating system.
#[derive(Debug, Clone, Copy, PartialEq, Eq, Structural)]
pub enum Action {
    /// Open the perf event of the CPU.
    OpenEvent { cpu_id: u32 },
    /// Map `len` bytes of the perf event `fd` from `offset` on, at any
    /// address, for reading if `read`, for writing if `write`, and shared
    /// with the producer if `shared`.
    Mmap { fd: i32, len: usize, offset: i64, read: bool, write: bool, shared: bool },
    /// Enable the perf event.
    Enable { fd: i32 },
    /// Disable the perf event; a failure is of no account.
    Disable { fd: i32 },
    /// Unmap the `len` bytes that were mapped.
    Unmap { len: usize },
    /// Close the perf event.
    Close { fd: i32 },
    /// Put the perf event `fd` into the map `map_fd` under the key `index`,
    /// with the update flags `flags`.
    Register { map_fd: i32, index: u32, fd: i32, flags: u64 },
}

/// The layout of a ring: the size of a page, the number of data pages and
/// the length of the data area that they make up.
#[derive(Debug, Clone, Copy, PartialEq, Eq, Structural)]
pub struct Layout {
    /// Bytes in a page; the metadata page takes one.
    pub page_size: usize,
    /// Number of pages in the data area.
    pub page_count: usize,
    /// Bytes in the data area.
    pub size: usize,
}

impl Layout {
    /// The data area is a power of two of pages, and the whole mapping, with
    /// the metadata page before it, has a length that a `usize` holds.
    pub open spec fn wf(&self) -> bool {
        &&& is_pow2(self.page_count as int)
        &&& self.size == self.page_size * self.page_count
        &&& self.size + self.page_size <= usize::MAX
    }

    /// The length of the whole mapping: the metadata page and the data area.
    pub open spec fn mmap_len(&self) -> usize {
        (self.size + self.page_size) as usize
    }
}

/// A ring buffer that is being opened: the page count was accepted, the perf
/// event is still to be opened.
#[derive(Debug)]
pub struct Opening {
    cpu_id: u32,
    layout: Layout,
}

/// A ring buffer that is being opened: the perf event is open, the ring is
/// still to be mapped.
#[derive(Debug)]
pub struct Mapping {
    fd: i32,
    layout: Layout,
}

/// A perf ring buffer that was opened for one CPU and mapped.
#[derive(Debug)]
pub struct PerfBuffer {
    fd: i32,
    layout: Layout,
}

impl Opening {
    #[verifier::type_invariant]
    spec fn inv(&self) -> bool {
        self.layout.wf()
    }

    /// The CPU whose perf event is to be opened.
    pub closed spec fn cpu_id(&self) -> u32 {
        self.cpu_id
    }

    /// The layout that the ring will have.
    pub closed spec fn layout(&self) -> Layout {
        self.layout
    }

    /// What to do next: open the perf event.
    pub fn action(&self) -> (a: Action)
        ensures
            a == (Action::OpenEvent { cpu_id: self.cpu_id() }),
    {
        Action::OpenEvent { cpu_id: self.cpu_id }
    }

    /// Takes what opening the perf event gave: the file descriptor, with
    /// which the ring can be mapped, or the failure, which ends the opening.
    pub fn opened(self, result: Result<i32, io::Error>) -> (r: Result<Mapping, PerfBufferError>)
        ensures
            match result {
                Ok(fd) => r is Ok && r->Ok_0.fd() == fd && r->Ok_0.layout() == self.layout(),
                Err(io_error) => r == Err::<Mapping, PerfBufferError>(
                    PerfBufferError::OpenError { io_error },
                ),
            },
    {
        proof {
            use_type_invariant(&self);
        }
        match result {
            Ok(fd) => Ok(Mapping { fd, layout: self.layout }),
            Err(io_error) => Err(PerfBufferError::OpenError { io_error }),
        }
    }
}

impl Mapping {
    #[verifier::type_invariant]
    spec fn inv(&self) -> bool {
        self.layout.wf()
    }

    /// The file descriptor of the perf event.
    pub closed spec fn fd(&self) -> i32 {
        self.fd
    }

    /// The layout that the ring will have.
    pub closed spec fn layout(&self) -> Layout {
        self.layout
    }

    /// What to do next: map the metadata page and the data area.
    pub fn action(&self) -> (a: Action)
        ensures
            self.layout().wf(),
            a == (Action::Mmap {
                fd: self.fd(),
                len: self.layout().mmap_len(),
                offset: 0,
                read: true,
                write: true,
                shared: true,
            }),
    {
        proof {
            use_type_invariant(self);
        }
        Action::Mmap {
            fd: self.fd,
            len: self.layout.size + self.layout.page_size,
            offset: 0,
            read: true,
            write: true,
            shared: true,
        }
    }

    /// What to do where the mapping failed: close the perf event.
    pub fn release(&self) -> (a: Action)
        ensures
            a == (Action::Close { fd: self.fd() }),
    {
        Action::Close { fd: self.fd }
    }

    /// Takes what mapping the ring gave: on success the ring buffer, which
    /// is still to be enabled, else the failure, which ends the opening.
    pub fn mapped(self, result: Result<(), io::Error>) -> (r: Result<PerfBuffer, PerfBufferError>)
        ensures
            match result {
                Ok(_) => r is Ok && r->Ok_0.fd() == self.fd() && r->Ok_0.layout() == self.layout(),
                Err(io_error) => r == Err::<PerfBuffer, PerfBufferError>(
                    PerfBufferError::MMapError { io_error },
                ),
            },
    {
        proof {
            use_type_invariant(&self);
        }
        match result {
            Ok(_) => Ok(PerfBuffer { fd: self.fd, layout: self.layout }),
            Err(io_error) => Err(PerfBufferError::MMapError { io_error }),
        }
    }
}

impl PerfBuffer {
    #[verifier::type_invariant]
    spec fn inv(&self) -> bool {
        self.layout.wf()
    }

    /// The layout of the ring.
    pub closed spec fn spec_layout(&self) -> Layout {
        self.layout
    }

    /// The layout of the ring: a power of two of data pages, behind one
    /// metadata page.
    #[verifier::when_used_as_spec(spec_layout)]
    pub fn layout(&self) -> (layout: Layout)
        ensures
            layout == self.spec_layout(),
            layout.wf(),
    {
        proof {
            use_type_invariant(self);
        }
        self.layout
    }

    /// The length of the data area in bytes.
    pub open spec fn spec_size(&self) -> usize {
        self.layout().size
    }

    /// The length of the data area in bytes.
    #[verifier::when_used_as_spec(spec_size)]
    pub fn size(&self) -> (size: usize)
        ensures
            size == self.spec_size(),
    {
        self.layout.size
    }

    /// The length of the metadata page in bytes.
    pub open spec fn spec_page_size(&self) -> usize {
        self.layout().page_size
    }

    /// The length of the metadata page in bytes.
    #[verifier::when_used_as_spec(spec_page_size)]
    pub fn page_size(&self) -> (page_size: usize)
        ensures
            page_size == self.spec_page_size(),
    {
        self.layout.page_size
    }

    /// The length of the whole mapping: the metadata page and the data area.
    pub open spec fn spec_mmap_len(&self) -> usize {
        self.layout().mmap_len()
    }

    /// The length of the whole mapping: the metadata page and the data area.
    #[verifier::when_used_as_spec(spec_mmap_len)]
    pub fn mmap_len(&self) -> (len: usize)
        ensures
            len == self.spec_mmap_len(),
            len == self.size() + self.page_size(),
    {
        proof {
            use_type_invariant(self);
        }
        self.layout.size + self.layout.page_size
    }

    /// The file descriptor of the perf event.
    pub closed spec fn fd(&self) -> i32 {
        self.fd
    }

    /// The file descriptor of the perf event, for the caller to poll.
    pub fn as_raw_fd(&self) -> (fd: i32)
        ensures
            fd == self.fd(),
    {
        self.fd
    }

    /// Begins to open the ring buffer of the CPU `cpu_id`, with a data area
    /// of `page_count` pages of `page_size` bytes: accepts the page count if
    /// and only if it is a power of two.
    pub fn open(cpu_id: u32, page_size: usize, page_count: usize) -> (r: Result<
        Opening,
        PerfBufferError,
    >)
        requires
            is_pow2(page_count as int) ==> page_size * page_count + page_size <= usize::MAX,
        ensures
            !is_pow2(page_count as int) ==> r == Err::<Opening, PerfBufferError>(
                PerfBufferError::InvalidPageCount { page_count },
            ),
            is_pow2(page_count as int) ==> r is Ok && r->Ok_0.cpu_id() == cpu_id
                && r->Ok_0.layout() == (Layout {
                page_size,
                page_count,
                size: (page_size * page_count) as usize,
            }),
    {
        proof {
            is_pow2_equiv(page_count as int);
        }
        if !page_count.is_power_of_two() {
            return Err(PerfBufferError::InvalidPageCount { page_count });
        }
        assert(page_size * page_count >= 0) by (nonlinear_arith);
        let size = page_size * page_count;
        Ok(Opening { cpu_id, layout: Layout { page_size, page_count, size } })
    }

    /// What to do once the ring is mapped: enable the perf event.
    pub fn enable(&self) -> (a: Action)
        ensures
            a == (Action::Enable { fd: self.fd() }),
    {
        Action::Enable { fd: self.fd }
    }

    /// Takes what enabling the perf event gave: a failure ends the opening,
    /// and the ring buffer is to be released.
    pub fn enabled(&self, result: Result<(), io::Error>) -> (r: Result<(), PerfBufferError>)
        ensures
            match result {
                Ok(_) => r is Ok,
                Err(io_error) => r == Err::<(), PerfBufferError>(
                    PerfBufferError::PerfEventEnableError { io_error },
                ),
            },
    {
        match result {
            Ok(_) => Ok(()),
            Err(io_error) => Err(PerfBufferError::PerfEventEnableError { io_error }),
        }
    }

    /// What to do to release the ring buffer, in this order: disable the
    /// perf event, unmap the whole mapping, close the perf event.
    pub fn release(&self) -> (actions: [Action; 3])
        ensures
            actions@ == seq![
                Action::Disable { fd: self.fd() },
                Action::Unmap { len: self.mmap_len() },
                Action::Close { fd: self.fd() },
            ],
    {
        [
            Action::Disable { fd: self.fd },
            Action::Unmap { len: self.mmap_len() },
            Action::Close { fd: self.fd },
        ]
    }

    /// Drains the ring: moves the payload of each waiting sample into the
    /// next of `buffers`, sums up the dropped events that LOST records
    /// report, and sets `tail` to the offset that the caller is to publish.
    ///
    /// `data` is the data area, `head` the producer offset and `tail` the
    /// consumer offset. The caller reads `head` once, with acquire ordering,
    /// before the call, and publishes `tail` with release ordering after it,
    /// so that the producer overwrites no record before it was copied.
    ///
    /// With no buffer the drain is refused and nothing changes. Otherwise it
    /// runs as `drain` says, for capacities that the buffers report
    /// themselves: it ends at `head`, or where the buffers run out, or at a
    /// sample that its buffer has no room for. Such a sample stays in the
    /// ring and its buffer as it was. If samples were delivered before it,
    /// they are reported; if none was, the drain fails with the room that
    /// the sample needs and `tail` stays where it was, so that nothing is
    /// consumed.
    pub fn read_events(
        &self,
        data: &[u8],
        head: u64,
        tail: &mut u64,
        buffers: &mut [BytesMut],
    ) -> (r: Result<Events, PerfBufferError>)
        requires
            data@.len() == self.size(),
            old(buffers)@.len() > 0 ==> ring_ok(data@, head as int, *old(tail) as int),
        ensures
            old(buffers)@.len() == 0 ==> r == Err::<Events, PerfBufferError>(
                PerfBufferError::NoBuffers,
            ) && *final(tail) == *old(tail) && final(buffers)@.len() == 0,
            old(buffers)@.len() > 0 ==> drained(
                data@,
                head as int,
                *old(tail) as int,
                old(buffers)@,
                final(buffers)@,
                r,
                *final(tail) as int,
            ),
            old(buffers)@.len() > 0 && *old(tail) == head ==> r == Ok::<Events, PerfBufferError>(
                Events { read: 0, lost: 0 },
            ) && final(buffers)@ == old(buffers)@,
            old(buffers)@.len() > 0 ==> *old(tail) <= *final(tail) <= head,
            old(buffers)@.len() > 0 ==> ring_ok(data@, head as int, *final(tail) as int),
    {
        if buffers.len() == 0 {
            return Err(PerfBufferError::NoBuffers);
        }
        let ghost tail0 = *tail as int;
        let ghost before = buffers@;
        let ghost n = buffers@.len() as int;
        let ghost mut seen: Seq<int> = Seq::empty();
        let ghost mut payloads: Seq<Seq<u8>> = Seq::empty();
        let mut events = Events { read: 0, lost: 0 };
        let mut buf_n: usize = 0;
        let mut cur: u64 = *tail;
        while cur != head && buf_n < buffers.len()
            invariant
                data@.len() > 0,
                buffers@.len() == n,
                before == old(buffers)@,
                before.len() == n,
                0 < n,
                tail0 == *old(tail),
                tail0 == *tail,
                tail0 <= cur <= head,
                ring_ok(data@, head as int, tail0),
                records_chain(data@, head as int, cur as int),
                events.lost + lost_total(data@, head as int, cur as int) <= usize::MAX,
                buf_n <= n,
                events.read == buf_n,
                seen.len() == buf_n,
                payloads.len() == buf_n,
                forall|i: int| 0 <= i < buf_n ==> seen[i] >= contents(#[trigger] before[i]).len(),
                forall|i: int| 0 <= i < buf_n ==> contents(#[trigger] buffers@[i]) == payloads[i],
                forall|i: int| buf_n <= i < n ==> #[trigger] buffers@[i] == before[i],
                forall|caps: Seq<int>| #[trigger]
                    caps_begin_with(caps, seen, n) ==> drain_from(data@, head as int, tail0, caps, 0)
                        =~= after_progress(
                        payloads,
                        events.lost as nat,
                        drain_from(data@, head as int, cur as int, caps, buf_n as nat),
                    ),
            decreases head - cur,
        {
            let header = PerfEventHeader::read(data, cur);
            let ghost next = cur + header.size;
            let ghost payload = sample_payload(data@, cur as int);
            let buf = &mut buffers[buf_n];
            let capacity = buf.capacity();
            match read_event(data, cur, header.type_, capacity, buf) {
                Ok(Some((read, lost))) => {
                    if read > 0 {
                        proof {
                            let old_seen = seen;
                            let old_payloads = payloads;
                            seen = seen.push(capacity as int);
                            payloads = payloads.push(payload);
                            assert forall|caps: Seq<int>| #[trigger]
                                caps_begin_with(caps, seen, n) implies drain_from(
                                data@,
                                head as int,
                                tail0,
                                caps,
                                0,
                            ) =~= after_progress(
                                payloads,
                                events.lost as nat,
                                drain_from(data@, head as int, next, caps, (buf_n + 1) as nat),
                            ) by {
                                assert(caps_begin_with(caps, old_seen, n));
                                assert(caps[buf_n as int] == seen[buf_n as int]);
                                let rest = drain_from(
                                    data@,
                                    head as int,
                                    next,
                                    caps,
                                    (buf_n + 1) as nat,
                                );
                                assert(old_payloads + (seq![payload] + rest.payloads)
                                    =~= payloads + rest.payloads);
                            }
                        }
                        buf_n = buf_n + 1;
                        events.read = events.read + read;
                    }
                    events.lost = events.lost + lost;
                },
                Ok(None) => {},
                Err(e) => {
                    proof {
                        let caps = caps_seen(seen.push(capacity as int), before);
                        assert(caps_begin_with(caps, seen, n));
                        assert(caps_cover(caps, before));
                        let d = drain(data@, head as int, tail0, caps);
                        assert(d.payloads =~= payloads);
                    }
                    if events.read > 0 {
                        // some samples were delivered: they are handed out, and
                        // the next drain begins at the sample that did not fit
                        *tail = cur;
                        proof {
                            let caps = caps_seen(seen.push(capacity as int), before);
                            let d = drain(data@, head as int, tail0, caps);
                            assert(buffers_filled(d, before, buffers@));
                            assert(drained_with(
                                caps,
                                data@,
                                head as int,
                                tail0,
                                before,
                                buffers@,
                                Ok(events),
                                cur as int,
                            ));
                        }
                        return Ok(events);
                    }
                    // nothing was delivered: the caller is told how much room
                    // the sample needs, and the drain has consumed nothing
                    proof {
                        let caps = caps_seen(seen.push(capacity as int), before);
                        let d = drain(data@, head as int, tail0, caps);
                        assert(buffers_filled(d, before, buffers@));
                        assert(drained_with(caps, data@, head as int, tail0, before, buffers@, Err(e), tail0));
                    }
                    return Err(e);
                },
            }
            cur = cur + header.size as u64;
        }
        *tail = cur;
        proof {
            let caps = caps_seen(seen, before);
            assert(caps_begin_with(caps, seen, n));
            assert(caps_cover(caps, before));
            let d = drain(data@, head as int, tail0, caps);
            assert(d.payloads =~= payloads);
            assert(buffers_filled(d, before, buffers@));
            assert(drained_with(
                caps,
                data@,
                head as int,
                tail0,
                before,
                buffers@,
                Ok(events),
                cur as int,
            ));
        }
        Ok(events)
    }

    /// Drains the ring as `read_events` does, after it has made sure that the
    /// ring is one that can be drained. Where it is not, nothing is done and
    /// nothing is returned.
    pub fn read_events_checked(
        &self,
        data: &[u8],
        head: u64,
        tail: &mut u64,
        buffers: &mut [BytesMut],
    ) -> (r: Option<Result<Events, PerfBufferError>>)
        requires
            data@.len() == self.size(),
        ensures
            r is None <==> old(buffers)@.len() > 0 && !ring_ok(
                data@,
                head as int,
                *old(tail) as int,
            ),
            r is None ==> *final(tail) == *old(tail) && final(buffers)@ == old(buffers)@,
            old(buffers)@.len() == 0 ==> r == Some(
                Err::<Events, PerfBufferError>(PerfBufferError::NoBuffers),
            ) && *final(tail) == *old(tail) && final(buffers)@.len() == 0,
            r is Some && old(buffers)@.len() > 0 ==> drained(
                data@,
                head as int,
                *old(tail) as int,
                old(buffers)@,
                final(buffers)@,
                r->Some_0,
                *final(tail) as int,
            ) && *old(tail) <= *final(tail) <= head && ring_ok(
                data@,
                head as int,
                *final(tail) as int,
            ),
    {
        if buffers.len() > 0 && !check_ring(data, head, *tail) {
            return None;
        }
        Some(self.read_events(data, head, tail, buffers))
    }
}

} // verus!
