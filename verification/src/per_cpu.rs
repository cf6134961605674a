//! The ring buffers of a perf event array: one per CPU, each registered in
//! the map under the number of its CPU.
//!
//! The map itself lives in the kernel. What is known of it here is its name,
//! its type and, once it was created, its file descriptor.

use crate::buffer::{Action, Layout, Opening, PerfBuffer};
use crate::drain::{drained, ring_ok, Events};
use crate::error::{MapError, PerfBufferError, PerfMapError};
use bytes::BytesMut;
use std::io;
use vstd::arithmetic::power2::is_pow2;
use vstd::prelude::*;

verus! {

/// The map type of a perf event array.
pub const BPF_MAP_TYPE_PERF_EVENT_ARRAY: u32 = 4;

/// The number of data pages of a ring buffer for which none was asked.
pub const DEFAULT_PAGE_COUNT: usize = 2;

/// What is known of a map in the kernel.
#[derive(Debug)]
pub struct MapData {
    /// The name that the map was declared under.
    pub name: String,
    /// The type of the map.
    pub map_type: u32,
    /// The file descriptor of the map, once it was created.
    pub fd: Option<i32>,
}

/// A perf event array, from which ring buffers are opened CPU by CPU.
#[derive(Debug)]
pub struct PerfMap {
    map: MapData,
    page_size: usize,
}

/// A ring buffer that was opened from a perf event array.
#[derive(Debug)]
pub struct PerfMapBuffer {
    buf: PerfBuffer,
}

/// The page count to open a ring buffer with: the one asked for, or the
/// default.
pub open spec fn page_count_or_default(page_count: Option<usize>) -> usize {
    match page_count {
        Some(n) => n,
        None => DEFAULT_PAGE_COUNT,
    }
}

impl PerfMap {
    /// The map that the ring buffers are registered in.
    pub closed spec fn map(&self) -> MapData {
        self.map
    }

    /// The size of a page in bytes.
    pub closed spec fn page_size(&self) -> usize {
        self.page_size
    }

    /// Takes a map for a perf event array if and only if it is of that type.
    /// `page_size` is the size of a page on this machine.
    pub fn new(map: MapData, page_size: usize) -> (r: Result<PerfMap, PerfMapError>)
        ensures
            map.map_type != BPF_MAP_TYPE_PERF_EVENT_ARRAY ==> r == Err::<PerfMap, PerfMapError>(
                PerfMapError::MapError(MapError::InvalidMapType { map_type: map.map_type }),
            ),
            map.map_type == BPF_MAP_TYPE_PERF_EVENT_ARRAY ==> r is Ok && r->Ok_0.map() == map
                && r->Ok_0.page_size() == page_size,
    {
        let map_type = map.map_type;
        if map_type != BPF_MAP_TYPE_PERF_EVENT_ARRAY {
            return Err(PerfMapError::from(MapError::InvalidMapType { map_type }));
        }
        Ok(PerfMap { map, page_size })
    }

    /// Begins to open the ring buffer of the CPU `index`, with `page_count`
    /// data pages, or the default number where none is given. The map must
    /// have been created, and the page count must be a power of two.
    pub fn open(&mut self, index: u32, page_count: Option<usize>) -> (r: Result<
        Opening,
        PerfMapError,
    >)
        requires
            old(self).map().fd is Some && is_pow2(page_count_or_default(page_count) as int)
                ==> old(self).page_size() * page_count_or_default(page_count) + old(
                self,
            ).page_size() <= usize::MAX,
        ensures
            *final(self) == *old(self),
            old(self).map().fd is None ==> r == Err::<Opening, PerfMapError>(
                PerfMapError::MapError(MapError::NotCreated { name: old(self).map().name }),
            ),
            old(self).map().fd is Some && !is_pow2(page_count_or_default(page_count) as int) ==> r
                == Err::<Opening, PerfMapError>(
                PerfMapError::PerfBufferError(
                    PerfBufferError::InvalidPageCount {
                        page_count: page_count_or_default(page_count),
                    },
                ),
            ),
            old(self).map().fd is Some && is_pow2(page_count_or_default(page_count) as int) ==> r
                is Ok && r->Ok_0.cpu_id() == index && r->Ok_0.layout() == (Layout {
                page_size: old(self).page_size(),
                page_count: page_count_or_default(page_count),
                size: (old(self).page_size() * page_count_or_default(page_count)) as usize,
            }),
    {
        if self.map.fd.is_none() {
            return Err(PerfMapError::from(MapError::NotCreated { name: self.map.name.clone() }));
        }
        let page_count = match page_count {
            Some(n) => n,
            None => DEFAULT_PAGE_COUNT,
        };
        match PerfBuffer::open(index, self.page_size, page_count) {
            Ok(opening) => Ok(opening),
            Err(e) => Err(PerfMapError::from(e)),
        }
    }

    /// What to do once the ring buffer of the CPU `index` is open: register
    /// its file descriptor in the map under `index`. The map must have been
    /// created.
    pub fn register(&self, index: u32, buf: &PerfBuffer) -> (r: Result<Action, PerfMapError>)
        ensures
            match self.map().fd {
                Some(map_fd) => r == Ok::<Action, PerfMapError>(
                    Action::Register { map_fd, index, fd: buf.fd(), flags: 0 },
                ),
                None => r == Err::<Action, PerfMapError>(
                    PerfMapError::MapError(MapError::NotCreated { name: self.map().name }),
                ),
            },
    {
        match self.map.fd {
            Some(map_fd) => Ok(Action::Register { map_fd, index, fd: buf.as_raw_fd(), flags: 0 }),
            None => Err(PerfMapError::from(MapError::NotCreated { name: self.map.name.clone() })),
        }
    }

    /// Takes what registering the ring buffer gave: a failure ends the
    /// opening, and the ring buffer is to be released.
    pub fn registered(&self, result: Result<(), io::Error>) -> (r: Result<(), PerfMapError>)
        ensures
            match result {
                Ok(_) => r is Ok,
                Err(io_error) => r == Err::<(), PerfMapError>(
                    PerfMapError::UpdateElementError { io_error },
                ),
            },
    {
        match result {
            Ok(_) => Ok(()),
            Err(io_error) => Err(PerfMapError::UpdateElementError { io_error }),
        }
    }
}

impl PerfMapBuffer {
    /// The ring buffer itself.
    pub closed spec fn buf(&self) -> PerfBuffer {
        self.buf
    }

    /// Keeps a ring buffer that was opened and registered.
    pub fn new(buf: PerfBuffer) -> (r: PerfMapBuffer)
        ensures
            r.buf() == buf,
    {
        PerfMapBuffer { buf }
    }

    /// The ring buffer itself.
    pub fn buffer(&self) -> (buf: &PerfBuffer)
        ensures
            *buf == self.buf(),
    {
        &self.buf
    }

    /// The file descriptor of the perf event, for the caller to poll.
    pub fn as_raw_fd(&self) -> (fd: i32)
        ensures
            fd == self.buf().fd(),
    {
        self.buf.as_raw_fd()
    }

    /// Drains the ring, as `PerfBuffer::read_events` does.
    pub fn read_events(
        &mut self,
        data: &[u8],
        head: u64,
        tail: &mut u64,
        buffers: &mut [BytesMut],
    ) -> (r: Result<Events, PerfBufferError>)
        requires
            data@.len() == old(self).buf().size(),
            old(buffers)@.len() > 0 ==> ring_ok(data@, head as int, *old(tail) as int),
        ensures
            *final(self) == *old(self),
            old(buffers)@.len() == 0 ==> r == Err::<Events, PerfBufferError>(
                PerfBufferError::NoBuffers,
            ) && *final(tail) == *old(tail) && final(buffers)@.len() == 0,
            old(buffers)@.len() > 0 ==> drained(
                data@,
                head as int,
                *old(tail) as int,
                old(buffers)@,
                final(buffers)@,
                r,
                *final(tail) as int,
            ),
            old(buffers)@.len() > 0 && *old(tail) == head ==> r == Ok::<Events, PerfBufferError>(
                Events { read: 0, lost: 0 },
            ) && final(buffers)@ == old(buffers)@,
            old(buffers)@.len() > 0 ==> *old(tail) <= *final(tail) <= head,
            old(buffers)@.len() > 0 ==> ring_ok(data@, head as int, *final(tail) as int),
    {
        self.buf.read_events(data, head, tail, buffers)
    }
}

} // verus!
