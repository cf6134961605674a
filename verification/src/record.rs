//! The byte layout of perf event records and their decoding out of the
//! circular data area.
//!
//! The data area is a byte slice of fixed, non-zero length. Offsets into it
//! grow without bound; the byte that an offset addresses sits at the offset
//! modulo the length of the area. Every multi-byte field is little-endian and
//! may straddle the end of the area.

use vstd::arithmetic::div_mod::{
    lemma_add_mod_noop_right, lemma_fundamental_div_mod_converse, lemma_small_mod,
};
use vstd::prelude::*;

verus! {

/// Record type of a LOST record.
pub const PERF_RECORD_LOST: u32 = 2;

/// Record type of a SAMPLE record.
pub const PERF_RECORD_SAMPLE: u32 = 9;

/// Bytes taken by a record header.
pub const HEADER_SIZE: usize = 8;

/// Distance from the start of a SAMPLE record to its 32-bit payload length.
pub const SAMPLE_LEN_OFFSET: usize = 8;

/// Distance from the start of a SAMPLE record to its payload.
pub const SAMPLE_PAYLOAD_OFFSET: usize = 12;

/// Distance from the start of a LOST record to its 64-bit `id`.
pub const LOST_ID_OFFSET: usize = 8;

/// Distance from the start of a LOST record to its 64-bit `count`.
pub const LOST_COUNT_OFFSET: usize = 16;

/// Bytes taken by a whole LOST record.
pub const LOST_RECORD_SIZE: usize = 24;

/// The header every record starts with.
#[derive(Debug, Clone, Copy, PartialEq, Eq, Structural)]
pub struct PerfEventHeader {
    /// Kind of the record.
    pub type_: u32,
    /// Flags; not interpreted here.
    pub misc: u16,
    /// Length of the whole record in bytes, header included.
    pub size: u16,
}

/// The fixed part of a SAMPLE record: the header and the payload length.
#[derive(Debug, Clone, Copy, PartialEq, Eq, Structural)]
pub struct Sample {
    /// The header the record starts with.
    pub header: PerfEventHeader,
    /// Number of payload bytes that follow.
    pub size: u32,
}

/// A LOST record: the producer dropped `count` events.
#[derive(Debug, Clone, Copy, PartialEq, Eq, Structural)]
pub struct LostSamples {
    /// The header the record starts with.
    pub header: PerfEventHeader,
    /// Identifier of the event source.
    pub id: u64,
    /// Number of events that were dropped.
    pub count: u64,
}

/// The `len` bytes of the data area that start at `offset`, in order, going
/// round the end of the area as often as needed.
pub open spec fn ring_window(data: Seq<u8>, offset: int, len: int) -> Seq<u8> {
    Seq::new(len as nat, |i: int| data[(offset + i) % (data.len() as int)])
}

/// The 16-bit value that two little-endian bytes stand for.
pub open spec fn le_u16(b: Seq<u8>) -> u16 {
    (b[0] as int + b[1] as int * 0x100) as u16
}

/// The 32-bit value that four little-endian bytes stand for.
pub open spec fn le_u32(b: Seq<u8>) -> u32 {
    (b[0] as int + b[1] as int * 0x100 + b[2] as int * 0x1_0000 + b[3] as int * 0x100_0000) as u32
}

/// The 64-bit value that eight little-endian bytes stand for.
pub open spec fn le_u64(b: Seq<u8>) -> u64 {
    (le_u32(b.subrange(0, 4)) as int + le_u32(b.subrange(4, 8)) as int * 0x1_0000_0000) as u64
}

/// The header of the record that starts at `offset`.
pub open spec fn header_at(data: Seq<u8>, offset: int) -> PerfEventHeader {
    PerfEventHeader {
        type_: le_u32(ring_window(data, offset, 4)),
        misc: le_u16(ring_window(data, offset + 4, 2)),
        size: le_u16(ring_window(data, offset + 6, 2)),
    }
}

/// The record at `offset`, read as a SAMPLE.
pub open spec fn sample_at(data: Seq<u8>, offset: int) -> Sample {
    Sample {
        header: header_at(data, offset),
        size: le_u32(ring_window(data, offset + SAMPLE_LEN_OFFSET as int, 4)),
    }
}

/// The payload of the SAMPLE record at `offset`.
pub open spec fn sample_payload(data: Seq<u8>, offset: int) -> Seq<u8> {
    ring_window(data, offset + SAMPLE_PAYLOAD_OFFSET as int, sample_at(data, offset).size as int)
}

/// The record at `offset`, read as a LOST record.
pub open spec fn lost_at(data: Seq<u8>, offset: int) -> LostSamples {
    LostSamples {
        header: header_at(data, offset),
        id: le_u64(ring_window(data, offset + LOST_ID_OFFSET as int, 8)),
        count: le_u64(ring_window(data, offset + LOST_COUNT_OFFSET as int, 8)),
    }
}

/// Adding to an offset commutes with reducing it modulo the area length.
pub proof fn lemma_mod_add(x: int, delta: int, n: int)
    requires
        0 < n,
    ensures
        (x % n + delta) % n == (x + delta) % n,
{
    lemma_add_mod_noop_right(delta, x, n);
}

/// A window depends on its offset only modulo the area length.
pub proof fn lemma_window_reduced(data: Seq<u8>, offset: int, len: int)
    requires
        0 < data.len(),
    ensures
        ring_window(data, offset % (data.len() as int), len) == ring_window(data, offset, len),
{
    let n = data.len() as int;
    assert forall|i: int| 0 <= i < ring_window(data, offset, len).len() implies ring_window(
        data,
        offset % n,
        len,
    )[i] == ring_window(data, offset, len)[i] by {
        lemma_mod_add(offset, i, n);
    }
    assert(ring_window(data, offset % n, len) =~= ring_window(data, offset, len));
}

/// The wrap-safe copy: a window of at least one byte and at most the length
/// of the area is one piece of the area where it ends before the end of the
/// area, and else two, the bytes from its start up to the end of the area and
/// then the bytes from the front of the area up to its end.
pub proof fn law_wrap_safe_copy(data: Seq<u8>, offset: int, len: int)
    requires
        0 <= offset,
        0 < len <= data.len(),
    ensures
        ({
            let size = data.len() as int;
            let start = offset % size;
            let end = (offset + len) % size;
            ring_window(data, offset, len) == if start < end {
                data.subrange(start, end)
            } else {
                data.subrange(start, size) + data.subrange(0, end)
            }
        }),
{
    let size = data.len() as int;
    let start = offset % size;
    let end = (offset + len) % size;
    lemma_window_reduced(data, offset, len);
    lemma_mod_add(offset, len, size);
    if start + len < size {
        lemma_small_mod((start + len) as nat, size as nat);
    } else {
        lemma_fundamental_div_mod_converse(start + len, size, 1, start + len - size);
    }
    let pieces = if start < end {
        data.subrange(start, end)
    } else {
        data.subrange(start, size) + data.subrange(0, end)
    };
    assert forall|i: int| 0 <= i < len implies ring_window(data, start, len)[i] == pieces[i] by {
        if start + i < size {
            lemma_small_mod((start + i) as nat, size as nat);
        } else {
            lemma_fundamental_div_mod_converse(start + i, size, 1, start + i - size);
        }
    }
    assert(ring_window(data, start, len) =~= pieces);
}

/// The position in the data area that lies `delta` bytes after `start`.
pub fn ring_pos(len: usize, start: usize, delta: usize) -> (pos: usize)
    requires
        start < len,
    ensures
        pos == (start + delta) % (len as int),
        pos < len,
{
    let d = delta % len;
    proof {
        lemma_add_mod_noop_right(start as int, delta as int, len as int);
    }
    if d < len - start {
        proof {
            lemma_small_mod((start + d) as nat, len as nat);
        }
        start + d
    } else {
        proof {
            lemma_fundamental_div_mod_converse(start + d, len as int, 1, start + d - len);
        }
        d - (len - start)
    }
}

/// The byte of the data area that lies `delta` bytes after `start`.
fn byte_at(data: &[u8], start: usize, delta: usize) -> (b: u8)
    requires
        start < data@.len(),
    ensures
        b == data@[(start + delta) % (data@.len() as int)],
{
    data[ring_pos(data.len(), start, delta)]
}

/// Reads the little-endian 16-bit field that lies `delta` bytes after `start`.
pub fn read_u16(data: &[u8], start: usize, delta: usize) -> (v: u16)
    requires
        start < data@.len(),
        delta + 1 <= usize::MAX,
    ensures
        v == le_u16(ring_window(data@, start + delta, 2)),
{
    let b0 = byte_at(data, start, delta);
    let b1 = byte_at(data, start, delta + 1);
    b0 as u16 + b1 as u16 * 0x100
}

/// Reads the little-endian 32-bit field that lies `delta` bytes after `start`.
pub fn read_u32(data: &[u8], start: usize, delta: usize) -> (v: u32)
    requires
        start < data@.len(),
        delta + 3 <= usize::MAX,
    ensures
        v == le_u32(ring_window(data@, start + delta, 4)),
{
    let b0 = byte_at(data, start, delta);
    let b1 = byte_at(data, start, delta + 1);
    let b2 = byte_at(data, start, delta + 2);
    let b3 = byte_at(data, start, delta + 3);
    b0 as u32 + b1 as u32 * 0x100 + b2 as u32 * 0x1_0000 + b3 as u32 * 0x100_0000
}

/// Reads the little-endian 64-bit field that lies `delta` bytes after `start`.
pub fn read_u64(data: &[u8], start: usize, delta: usize) -> (v: u64)
    requires
        start < data@.len(),
        delta + 7 <= usize::MAX,
    ensures
        v == le_u64(ring_window(data@, start + delta, 8)),
{
    let lo = read_u32(data, start, delta);
    let hi = read_u32(data, start, delta + 4);
    proof {
        let w = ring_window(data@, start + delta, 8);
        assert(w.subrange(0, 4) =~= ring_window(data@, start + delta, 4));
        assert(w.subrange(4, 8) =~= ring_window(data@, start + delta + 4, 4));
    }
    lo as u64 + hi as u64 * 0x1_0000_0000
}

/// The position in the data area that the unbounded offset `offset` addresses.
pub fn ring_start(data: &[u8], offset: u64) -> (start: usize)
    requires
        0 < data@.len(),
    ensures
        start == (offset as int) % (data@.len() as int),
        start < data@.len(),
{
    (offset % (data.len() as u64)) as usize
}

impl PerfEventHeader {
    /// Decodes the header of the record that starts at `offset`.
    pub fn read(data: &[u8], offset: u64) -> (header: PerfEventHeader)
        requires
            0 < data@.len(),
        ensures
            header == header_at(data@, offset as int),
    {
        let start = ring_start(data, offset);
        proof {
            let n = data@.len() as int;
            lemma_window_reduced(data@, offset as int, 4);
            lemma_window_reduced(data@, offset + 4, 2);
            lemma_window_reduced(data@, offset + 6, 2);
            lemma_window_reduced(data@, start + 4, 2);
            lemma_window_reduced(data@, start + 6, 2);
            lemma_mod_add(offset as int, 4, n);
            lemma_mod_add(offset as int, 6, n);
        }
        PerfEventHeader {
            type_: read_u32(data, start, 0),
            misc: read_u16(data, start, 4),
            size: read_u16(data, start, 6),
        }
    }
}

impl Sample {
    /// Decodes the fixed part of the SAMPLE record that starts at `offset`.
    pub fn read(data: &[u8], offset: u64) -> (sample: Sample)
        requires
            0 < data@.len(),
        ensures
            sample == sample_at(data@, offset as int),
    {
        let start = ring_start(data, offset);
        let header = PerfEventHeader::read(data, offset);
        proof {
            let n = data@.len() as int;
            lemma_window_reduced(data@, offset + 8, 4);
            lemma_window_reduced(data@, start + 8, 4);
            lemma_mod_add(offset as int, 8, n);
        }
        Sample { header, size: read_u32(data, start, SAMPLE_LEN_OFFSET) }
    }
}

impl LostSamples {
    /// Decodes the LOST record that starts at `offset`.
    pub fn read(data: &[u8], offset: u64) -> (lost: LostSamples)
        requires
            0 < data@.len(),
        ensures
            lost == lost_at(data@, offset as int),
    {
        let start = ring_start(data, offset);
        let header = PerfEventHeader::read(data, offset);
        proof {
            let n = data@.len() as int;
            lemma_window_reduced(data@, offset + 8, 8);
            lemma_window_reduced(data@, start + 8, 8);
            lemma_mod_add(offset as int, 8, n);
            lemma_window_reduced(data@, offset + 16, 8);
            lemma_window_reduced(data@, start + 16, 8);
            lemma_mod_add(offset as int, 16, n);
        }
        LostSamples {
            header,
            id: read_u64(data, start, LOST_ID_OFFSET),
            count: read_u64(data, start, LOST_COUNT_OFFSET),
        }
    }
}

} // verus!
