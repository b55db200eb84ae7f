//! Per-CPU storage core: layout arithmetic for per-CPU data areas, one-time
//! initialization that replicates the template area of CPU 0 into every other
//! CPU's area, and a model of the per-CPU base register that each CPU binds
//! during bring-up.

pub mod area;
pub mod layout;
pub mod reg;

pub use layout::align_up_64;
