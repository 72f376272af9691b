//! Verified core of a live audio streaming pipeline: the wire framing of
//! sample chunks, latency measurement, capture chunking, the bounded
//! handoff queue between real-time and network contexts, the jitter buffer
//! that feeds playback, and the per-connection frame reader.
//!
//! Samples are carried as the raw bit patterns of 32-bit IEEE-754 floats
//! (`u32`), so every operation here is exact, bit for bit; the all-zero
//! pattern is silence (`0.0`).
pub mod codec;
pub mod handoff;
pub mod latency;
pub mod jitter;
pub mod capture;
pub mod receiver;
pub mod sender;
