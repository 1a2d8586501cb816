//! Connection registry and wake-command dispatch core for remotely woken
//! network devices.
//!
//! - [`catalog`]: the durable device catalog (id to record) and authentication.
//! - [`registry`]: which device ids currently hold a live connection.
//! - [`dispatch`]: turns a wake request into a command delivered to the live
//!   connection, or into the reason it could not be delivered.
//! - [`lifecycle`]: the per-connection state machine.
pub mod catalog;
pub mod registry;
pub mod dispatch;
pub mod lifecycle;
