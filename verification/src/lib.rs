//! A causal-history engine for distributed tracing probes.
//!
//! Independent instrumentation points ("probes") record discrete events and
//! exchange compact causal-history summaries, so that an offline analysis
//! tool can later reconstruct a partial order across all probes. The engine
//! runs in bounded memory and never silently loses causal information:
//! resource exhaustion is converted into an authoritative internal event
//! recorded in-band in the log.
//!
//! The pieces, leaves first: the identifier model ([`id`]), logical clocks
//! ([`clock`]), the bit-packed compact log codec and its segment-recovery
//! algorithm ([`compact_log`]), the clock-merge model and its laws
//! ([`merge`]), the causal history store ([`history`]), the fixed-width
//! snapshot wire codec ([`wire`]), and the probe facade ([`tracer`]).

pub mod bytes;
pub mod clock;
pub mod compact_log;
pub mod error;
pub mod history;
pub mod id;
pub mod merge;
pub mod tracer;
pub mod wire;

pub use clock::LogicalClock;
pub use error::InvalidEventId;
pub use error::InvalidProbeId;
pub use id::EventId;
pub use id::ProbeId;
pub use id::TracerId;
pub use tracer::Backend;
pub use tracer::CausalSnapshot;
pub use tracer::LogicalClockBucket;
pub use tracer::Tracer;
