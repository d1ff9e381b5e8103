//! A peer-to-peer communication runtime core: peer registry and stream
//! negotiation for a multiplexed transport, a bounded broadcast ring buffer
//! that fans one event sequence out to many readers, and the spin lock that
//! guards its short critical sections.

pub mod p2p;
pub mod shared;
pub mod time;
pub mod vlock;

pub use vlock::VLock;
pub use vlock::VLockGuard;
