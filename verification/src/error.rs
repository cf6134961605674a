//! The failures that opening and draining a perf ring buffer can report.

use std::io;
use vstd::prelude::*;

verus! {

/// `std::io::Error`, carried through as an opaque value.
#[verifier::external_type_specification]
#[verifier::external_body]
pub struct ExIoError(io::Error);

/// What can go wrong with one ring buffer.
#[derive(Debug)]
pub enum PerfBufferError {
    /// The page count is not a power of two.
    InvalidPageCount { page_count: usize },
    /// The perf event could not be opened.
    OpenError { io_error: io::Error },
    /// The ring could not be mapped into memory.
    MMapError { io_error: io::Error },
    /// The perf event could not be enabled.
    PerfEventEnableError { io_error: io::Error },
    /// A drain was asked for with no output buffer.
    NoBuffers,
    /// The next sample takes `size` bytes and no sample was delivered
    /// because the first output buffer cannot hold that many.
    MoreSpaceNeeded { size: usize },
    /// Any other failure of the operating system.
    IOError(io::Error),
}

/// What can go wrong with the map that the ring buffers are registered in.
#[derive(Debug)]
pub enum MapError {
    /// The map is of another type than the operation needs.
    InvalidMapType { map_type: u32 },
    /// The map has not been created in the kernel yet.
    NotCreated { name: String },
}

/// What can go wrong when a per-CPU ring buffer is set up.
#[derive(Debug)]
pub enum PerfMapError {
    /// The list of online CPUs could not be parsed.
    InvalidOnlineCpuFile,
    /// No CPU was given.
    NoCpus,
    /// The CPU does not exist.
    InvalidCpu { cpu_id: u32 },
    /// The map itself failed.
    MapError(MapError),
    /// The ring buffer failed.
    PerfBufferError(PerfBufferError),
    /// Any other failure of the operating system.
    IOError(io::Error),
    /// The ring buffer could not be registered in the map.
    UpdateElementError { io_error: io::Error },
}

impl From<MapError> for PerfMapError {
    fn from(e: MapError) -> (r: PerfMapError) {
        PerfMapError::MapError(e)
    }
}

impl vstd::std_specs::convert::FromSpecImpl<MapError> for PerfMapError {
    open spec fn obeys_from_spec() -> bool {
        true
    }

    open spec fn from_spec(e: MapError) -> PerfMapError {
        PerfMapError::MapError(e)
    }
}

impl From<PerfBufferError> for PerfMapError {
    fn from(e: PerfBufferError) -> (r: PerfMapError) {
        PerfMapError::PerfBufferError(e)
    }
}

impl vstd::std_specs::convert::FromSpecImpl<PerfBufferError> for PerfMapError {
    open spec fn obeys_from_spec() -> bool {
        true
    }

    open spec fn from_spec(e: PerfBufferError) -> PerfMapError {
        PerfMapError::PerfBufferError(e)
    }
}

impl From<io::Error> for PerfBufferError {
    fn from(e: io::Error) -> (r: PerfBufferError) {
        PerfBufferError::IOError(e)
    }
}

impl vstd::std_specs::convert::FromSpecImpl<io::Error> for PerfBufferError {
    open spec fn obeys_from_spec() -> bool {
        true
    }

    open spec fn from_spec(e: io::Error) -> PerfBufferError {
        PerfBufferError::IOError(e)
    }
}

impl From<io::Error> for PerfMapError {
    fn from(e: io::Error) -> (r: PerfMapError) {
        PerfMapError::IOError(e)
    }
}

impl vstd::std_specs::convert::FromSpecImpl<io::Error> for PerfMapError {
    open spec fn obeys_from_spec() -> bool {
        true
    }

    open spec fn from_spec(e: io::Error) -> PerfMapError {
        PerfMapError::IOError(e)
    }
}

} // verus!
