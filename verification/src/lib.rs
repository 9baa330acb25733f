use vstd::prelude::*;

pub mod cli;
pub mod client;
pub mod config;
pub mod encoding;
pub mod keyed;
pub mod protocol;
pub mod server;
pub mod text;

verus! {

} // verus!
