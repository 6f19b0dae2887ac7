//! Bounded-concurrency TCP port scan engine.
//!
//! The library holds the scan's decisions: which port is scheduled next,
//! which probe may hold a permit, how a connection attempt is classified and
//! how the outcomes become the final report. Running the probes (sockets,
//! timers, tasks) is left to the caller, which feeds each outcome back.
mod count;
pub mod limiter;
pub mod probe;
pub mod scan;
pub mod target;

pub use limiter::{Limiter, LimiterView};
pub use probe::{ConnectResult, ProbeOutcome, Verdict};
pub use scan::{PortPhase, RecordError, Scan, ScanReport, ScanView, Scheduled};
pub use target::{Arguments, ConfigError, IpAddress, ScanTarget};
