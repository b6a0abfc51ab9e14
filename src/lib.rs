//! Resolves IP addresses to link-layer (hardware) addresses from the host's
//! neighbor table: the table's records are checked and decoded, folded into
//! a mapping, and searched.
pub mod entry;
pub mod ip;
pub mod lladdr;
pub mod resolve;
pub mod table;

pub use entry::{DecodeFault, LookupError, NeighborEntry, RawNeighbor, ReachabilityState};
pub use ip::IpAddress;
pub use lladdr::LlAddr;
pub use table::NeighborTable;
