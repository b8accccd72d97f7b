//! Golden-image file integrity: fingerprints of files, the comparison of a
//! live tree against a recorded baseline, and the monitor's fail-closed rule.
//!
//! The library works on plain values. Whoever walks the filesystem, reads the
//! files and talks to the store hands it what was found, and acts on what it
//! returns.

pub mod text;
pub mod model;
pub mod digest;
pub mod scanner;
pub mod anomaly;
pub mod differ;
pub mod inspect;
pub mod supervisor;
pub mod monitor;
pub mod store;

pub use crate::anomaly::{AnomalyKind, AnomalyRecord, AnomalyValue};
pub use crate::model::{Baseline, FileIntegrityEntry, IntegrityError};
pub use crate::monitor::{EventType, FanotifyMonitor, FileEvent, MockMonitor};
