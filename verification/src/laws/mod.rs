//! What holds of every answer of the library, over all inputs.
//!
//! A law takes a call and an answer that its function may give, and says how the
//! answer hangs together with the inputs, or how the answers of several calls do.

pub mod attention;
pub mod deltanet;
pub mod heads;
pub mod host;
pub mod kernels;
pub mod layers;
pub mod loading;
pub mod marlin;
pub mod model;
pub mod recurrence;
pub mod session;
