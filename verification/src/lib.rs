//! Core of a single-host gateway that supervises backend execution engines
//! ("runtimes") as child processes and routes evaluation requests to them.
//!
//! The crate holds the verified decision logic: the controller actor that owns
//! the runtime table, the heartbeat / idle-shutdown monitor, the filesystem
//! change debouncer, and the request-dispatch computations. Process spawning,
//! HTTP serving and file access live outside, in the unverified shell, which
//! feeds events into these state machines and performs the actions they
//! return.

pub mod controller;
pub mod dispatcher;
pub mod errors;
pub mod heartbeat;
pub mod pipeline;
pub mod protocol;
pub mod watcher;
