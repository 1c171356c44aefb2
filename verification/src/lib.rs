//! State machines and bookkeeping of a completion and readiness based I/O runtime.

use vstd::prelude::*;

pub mod blocking;
pub mod builder;
pub mod driver;
pub mod error;
pub mod fs;
pub mod heap;
pub mod io;
pub mod net;
pub mod op;
pub mod process;
pub mod signal;
pub mod slots;
pub mod task;
pub mod time;
pub mod timer;
pub mod util;
pub mod wheel;

verus! {

} // verus!
