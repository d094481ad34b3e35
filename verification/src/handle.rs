//! How the ring that a thread uses is set up.

use vstd::prelude::*;

use crate::abi::{
    IORING_SETUP_COOP_TASKRUN, IORING_SETUP_DEFER_TASKRUN, IORING_SETUP_SINGLE_ISSUER,
    IORING_SETUP_SUBMIT_ALL,
};

verus! {

/// The number of submission entries of a thread's ring, and of tasks its executor has room for.
pub const RING_ENTRIES: u32 = 4096;

/// The setup flags of a thread's ring.
pub const RING_FLAGS: u32 = IORING_SETUP_SINGLE_ISSUER | IORING_SETUP_COOP_TASKRUN
    | IORING_SETUP_DEFER_TASKRUN | IORING_SETUP_SUBMIT_ALL;

} // verus!
