//! Verified core of a local face-authentication service.
//!
//! The library holds the protocol codec, the persistent user record with its
//! quality-aware merge, the K-of-N authentication state machine, the
//! enrollment session logic, and peer authorization. Camera capture, model
//! inference and socket I/O live outside the library and talk to it through
//! plain values.
//!
//! Floating-point samples (embedding components, quality scores, similarity
//! scores) are carried as their IEEE-754 single-precision bit patterns in
//! `u32` values. The wire format only moves the bits, so this is lossless;
//! comparisons on qualities and similarities rely on the fact that the bit
//! patterns of non-negative finite floats order exactly as the floats do.

pub mod ascii;
pub mod client;
pub mod codec;
pub mod config;
pub mod crypto;
pub mod engine;
pub mod enroll;
pub mod paths;
pub mod protocol;
pub mod quality;
pub mod service;
pub mod store;
pub mod text;
