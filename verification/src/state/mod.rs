//! Account state: pools, ticks, positions, settlement policies and their
//! allowlists.
pub mod address;
pub mod allowlist;
pub mod policy;
pub mod pool;
pub mod position;
pub mod tick;

pub use address::Address;
pub use allowlist::AllowlistState;
pub use policy::PolicyState;
pub use pool::PoolState;
pub use position::PositionState;
pub use tick::{TickState, TickStatus};
