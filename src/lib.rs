//! Hardened memory primitives: constant-time byte comparison and wiping,
//! page arithmetic, and the layout and protocols of a guarded allocator.


pub mod ct;
pub mod page;
pub mod layout;
pub mod guarded;
pub mod secret;
pub mod mlock;

pub use ct::{memcmp, memeq, memset, memzero};
