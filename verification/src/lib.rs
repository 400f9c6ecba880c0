//! A verified core for playing canonical PCM WAV audio: a decoder that reads
//! the fixed-offset header fields and the 16-bit sample data out of an
//! in-memory byte source, and a playback engine that supplies interleaved
//! frames to a real-time output callback without ever reading past the end of
//! the decoded buffer.

pub mod playback;
pub mod wav;
