//! Verified core of the zscheme command-line front end.
use vstd::prelude::*;

pub mod bundle;
pub mod cbor;
pub mod client;
pub mod context;
pub mod daemon;
pub mod error;
pub mod executor;
pub mod ipc;
pub mod message;
pub mod scheme;
pub mod publish;
pub mod repl;
pub mod text;
pub mod value;

verus! {

} // verus!
