//! Running statistics over a sliding window of `i32` samples that arrive as a
//! fragmented byte stream.
//!
//! [`RollingStats`] keeps the most recent samples in a bounded first-in
//! first-out window together with their exact sum and sum of squares, and
//! reassembles four-byte frames across the boundaries of the chunks it is fed.
//!
//! * [`endianness`]: the two byte orders, the value of a frame, and the
//!   `byteorder` readers that compute it, taken on trust.
//! * [`window`]: which samples a bounded window retains, and their aggregates.
//! * [`stream`]: how a byte stream divides into frames and pending bytes.
//! * [`model`]: the state of a [`RollingStats`] as mathematical values, the
//!   effect of each operation on it, and the laws these obey.
//! * [`stats`]: the executable [`RollingStats`].
//! * [`storage`]: the `heapless` containers underneath, taken on trust.

pub mod endianness;
pub mod model;
pub mod stats;
pub mod storage;
pub mod stream;
pub mod window;

pub use endianness::Endianness;
pub use model::{RollingStatsView, MAX_WINDOW_SIZE};
pub use stats::{InvalidConfiguration, RollingStats, DEFAULT_WINDOW_SIZE};
