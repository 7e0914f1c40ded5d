//! Synchronization for a real-time kernel's statically placed objects, verified.
//!
//! - `object`: kernel object slots and their one-time initialization.
//! - `sysmutex`: the holder and hold count of a recursive kernel mutex, and the fork
//!   synchronizer with one such mutex per resource.
//! - `condsync`: the fork synchronizer with one flag per resource under a single lock.
//! - `channel`: the fork synchronizer whose state a coordinator task owns.
//! - `harness`: the ring of workers that contend for the resources.

use vstd::prelude::*;

pub mod channel;
pub mod condsync;
pub mod harness;
pub mod object;
pub mod sysmutex;

verus! {

/// Number of resources in the ring used by the contention harness.
pub const NUM_PHIL: usize = 6;

} // verus!
