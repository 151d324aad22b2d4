//! A small library around a repeating-key XOR transform on byte buffers.
//!
//! The cipher engine applies the transform to in-memory data; because XOR is
//! its own inverse, the same operation both encrypts and decrypts.  The
//! dispatch module plans which files to touch and under what output name,
//! while all reading and writing of the filesystem is left to the caller.

pub mod cipher;
pub mod dispatch;
pub mod naming;
