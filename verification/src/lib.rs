//! The core of a consensus manager: the part of a BFT node that takes it
//! from one block height to the next.
//!
//! At each height the node runs a single-height consensus machine to agree
//! with the validators on one block. This crate is what stands around that
//! machine. It decides when a height begins and ends, keeps messages that
//! arrive for a later height, schedules the machine's timeouts, and gives a
//! height up when the network has moved past it.
//!
//! Nothing in this crate waits, reads a socket or calls the machine. The
//! consensus loop and the driver of a height are state machines: they take an
//! event and answer with the next action. Whoever embeds them performs the
//! action and reports the event that came of it. Each step is specified by a
//! function on a mathematical model of the state, and what holds of every run
//! is proved over those functions.
//!
//! - [`types`]: messages, decisions, tasks, errors.
//! - [`cache`]: the ordered, bounded store of early messages.
//! - [`scheduler`]: the timed tasks of a height.
//! - [`manager`]: what outlives a height, and where a message goes.
//! - [`driver`]: the work on one height.
//! - [`consensus`]: the loop over the heights.
//! - [`history`]: what holds of every run of the loop.

pub mod cache;
pub mod consensus;
pub mod driver;
pub mod history;
pub mod manager;
pub mod scheduler;
pub mod types;
