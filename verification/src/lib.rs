//! Typed values of the kernel settings under `/proc/sys/kernel`.
//!
//! The kernel shows each of these settings as a short text. This library
//! holds the grammar of three of them: the release version, the semaphore
//! limits, and the largest process ID. It reads no file itself: a caller
//! reads the text, or fails to, and hands over what came of it.

pub mod chars;
pub mod decimal;
pub mod limits;
pub mod order;
pub mod scalar;
pub mod source;
pub mod split;
pub mod version;

pub use decimal::IntError;
pub use limits::{Field, LimitsError, SemaphoreLimits};
pub use scalar::pid_max;
pub use source::{ReadError, Unavailable};
pub use version::{Component, Version, VersionError};
