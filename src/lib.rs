//! Process-representation core of a small teaching kernel: scheduling value
//! types, the process control block, the fixed-capacity process table, and the
//! architecture capability contracts the control block relies on.
use vstd::prelude::*;

pub mod arch;
pub mod process;

verus! {

} // verus!
