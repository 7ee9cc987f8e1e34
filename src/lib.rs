//! Configuration management for a WireGuard tunnel endpoint: the text
//! format of the interface's configuration, the allocation of peer
//! addresses, the reconciliation of kernel state with stored metadata, and
//! the command line of the privileged helper that changes kernel state.
use vstd::prelude::*;

pub mod accounts;
pub mod allocator;
pub mod client;
pub mod discovery;
pub mod engine;
pub mod helper;
pub mod laws;
pub mod messages;
pub mod net;
pub mod text;
pub mod wg_conf;

verus! {

} // verus!
