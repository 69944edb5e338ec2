//! A verified benchmark-measurement harness.
//!
//! The harness runs a fixed sequence of six named data-frame operations
//! through an external query engine, measures each operation's wall-clock
//! duration and process-memory delta, and assembles the results together
//! with host and dataset metadata into a structured report.  The engine
//! calls, timing and memory sampling happen outside this library; the
//! library holds the logic that is worth stating exactly: the measurement
//! arithmetic, the fixed operation schedule with its fail-fast rule, the
//! report data model, and a lossless text encoding of the report.

pub mod codec;
pub mod digits;
pub mod driver;
pub mod escape;
pub mod measure;
pub mod report;
