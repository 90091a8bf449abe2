//! Owl: the verified core of an inference engine.
//!
//! Every rule that decides something on plain values lives here: the graph
//! capture governor, the weight layouts of the quantized kernels, the shape and
//! loading rules of the model layers, the session and runner protocols. Work on
//! a device or on a socket is done by the caller with the plans made here.

pub mod config;
pub mod dtype;
pub mod f16c;
pub mod graph;
pub mod kernels;
pub mod laws;
pub mod models;
pub mod runner;
pub mod server;
pub mod session;
pub mod text;
pub mod transfer;
pub mod turn;
pub mod utils;
