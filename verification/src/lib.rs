//! Deadline-ordered multicast (DOM) and leader bookkeeping for clock-assisted
//! OmniPaxos, with verified contracts.

pub mod arith;
pub mod errors;
pub mod util;
pub mod ballot;
pub mod storage;
pub mod messages;
pub mod dom;
pub mod clock;
pub mod promise;
pub mod leader_state;
pub mod benchmark;

use vstd::prelude::*;

verus! {

} // verus!
