//! A minimal function-execution node: decoding uploads, naming artifacts,
//! routing requests and sequencing the load, call and unload of a module.

pub mod bytes;
pub mod client;
pub mod error;
pub mod invoker;
pub mod multipart;
pub mod response;
pub mod router;
pub mod store;
pub mod sum;
pub mod upload;
