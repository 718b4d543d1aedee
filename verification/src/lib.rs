//! Random-access video frame serving: the verified core.
//!
//! Every module states its behaviour as contracts over mathematical models
//! (sequences of bytes and characters, plain integers, views of the data
//! types) and is checked by Verus.

pub mod avio;
pub mod client;
pub mod config;
pub mod convert;
pub mod decoder;
pub mod devshell;
pub mod encoder;
pub mod frame;
pub mod json;
pub mod offsets;
pub mod protocol;
pub mod session;
pub mod storage;
