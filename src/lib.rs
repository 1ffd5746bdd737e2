//! LoFiRe broker/client messaging core: wire types, canonical encoding,
//! block store, overlay registry, broker engine and client multiplexer.
use vstd::prelude::*;

pub mod keys;
pub mod block;
pub mod codec;
pub mod errors;
pub mod types;
pub mod auth;
pub mod store;
pub mod traverse;
pub mod overlay;
pub mod server;
pub mod mux;
pub mod connection;

verus! {

} // verus!
