//! A multi-track live looping engine: per-track state machines, loop
//! buffers, a shared sample counter and the per-tick mixing step, with the
//! controller-side logic that pairs devices with the engine's ports.
//!
//! Audio is held as fixed-point integers: loop buffers store `i32` samples
//! (overdubs clip at full scale) and the output mix sums them into `i64`,
//! so mixing is exact and independent of the order of the tracks. The host
//! converts its own sample format at the edges.
pub mod common;
pub mod counter;
pub mod error;
pub mod io_selector;
pub mod laws;
pub mod ports;
pub mod track;
pub mod track_id;
pub mod track_manager;
pub mod util;

pub use counter::GlobalCounter;
pub use track_id::TrackId;
