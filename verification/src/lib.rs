//! A verified consumer of per-CPU perf ring buffers.
//!
//! The kernel writes event records into a circular data area and publishes
//! how far it got in `head`; the consumer drains the records into output
//! buffers and publishes how far it got in `tail`. This library holds what is
//! decided and computed on the consumer's side: the layout of a ring, the
//! steps by which one is opened and released, the decoding of records that
//! may wrap round the end of the data area, and the drain itself.

pub mod buffer;
pub mod drain;
pub mod error;
pub mod output;
pub mod per_cpu;
pub mod record;

pub use buffer::{Action, Layout, Mapping, Opening, PerfBuffer};
pub use drain::Events;
pub use error::{MapError, PerfBufferError, PerfMapError};
pub use per_cpu::{MapData, PerfMap, PerfMapBuffer};
pub use record::{LostSamples, PerfEventHeader, Sample};
