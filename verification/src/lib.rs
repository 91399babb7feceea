//! A small matching venue: a line-oriented request protocol, a matching
//! engine that tracks per-commodity net interest and fires a trade on every
//! crossing of that counter, and the per-connection state machine that
//! turns inbound lines and broadcast trade events into replies. The network
//! runtime around these parts lives outside the library and drives them
//! through the public functions here.

pub mod codec;
pub mod conn;
pub mod engine;
