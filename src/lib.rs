//! A socket multiplexer over the smoltcp protocol engine.
//!
//! Application sockets keep their own outbound and inbound queues; passes of `spin` move
//! queued bytes into the engine, resuming a partially sent packet before any newer one,
//! and move received bytes out. The stack's configuration is committed once by
//! `finalize`, which refuses a family with addresses but no default gateway.
pub mod address;
pub mod device;
pub mod engine;
pub mod error;
pub mod laws;
pub mod socket;
pub mod stack;
