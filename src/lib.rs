//! Concurrency core of a node's pending-item pools: commands and their
//! channels, the operation and endorsement pools a worker applies them to,
//! and the controller handle through which callers read and send.
use vstd::prelude::*;

pub mod command;
pub mod controller;
pub mod endorsement_pool;
pub mod operation_pool;
pub mod sync;
pub mod worker;

verus! {

} // verus!
