//! A request handler behind a queue.
//!
//! An [`Entity`] owns a [`RequestHandler`] and is the only code that ever
//! calls it. Requests reach it one at a time as [`RequestWrapper`] values
//! taken from a bounded queue, and every exchange it makes is recorded in
//! a ghost history, so that the order of the handler's work can be stated
//! and proved.
//!
//! The library holds the decisions: what an entity does with a wrapped
//! request, how a request is wrapped, and what a caller is told when the
//! queue or the reply slot lets it down. Waiting on the queue and on the
//! reply slot is left to the asynchronous code around it.

pub mod connection;
pub mod entity;
pub mod error;
pub mod laws;

pub use connection::{accepted, answered};
pub use entity::{queue, Entity, RequestHandler, RequestWrapper, Served, QUEUE_CAPACITY};
pub use error::Error;
