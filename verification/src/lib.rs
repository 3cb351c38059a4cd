//! The decision-making core of a byte relay: an offset-based HTTP request
//! framer and the per-connection pump state machine.

#![allow(deprecated)]

pub mod buffer;
pub mod slice;
pub mod text;
pub mod parser;
pub mod headers;
pub mod request;
pub mod pump;
pub mod pool;
