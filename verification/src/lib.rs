//! A command-line argument tokenizer and dispatcher.
//!
//! Raw process arguments are turned into a stream of recognized names
//! (short flags, long flags, positional words) together with on-demand
//! values, and each name is routed to a registered option handler that
//! validates and stores it.

pub mod arg;
pub mod consumer;
pub mod errors;
pub mod flag;
pub mod names;
pub mod parsable;
pub mod text;
pub mod tokenizer;
pub mod value;
