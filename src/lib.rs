//! Request/response dispatch and out-of-band control for a key-value store
//! client: command envelopes, reply decoding, request correlation, the
//! backchannel state machine and the live connection set.
use vstd::prelude::*;

pub mod backchannel;
pub mod command;
pub mod connections;
pub mod gateway;
pub mod types;
pub mod value;
