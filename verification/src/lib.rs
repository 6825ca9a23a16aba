//! Chunked firmware-upload coordinator.
//!
//! A device exposes two endpoints for replacing its firmware image: one that
//! accepts the image in bounded chunks wrapped in `multipart/form-data`
//! bodies, and one that seals the image and restarts the device.  This crate
//! holds the logic behind those endpoints: the framing grammar for the upload
//! bodies, the decimal index/total codec, the session state machine run by
//! the single background flash writer, and the per-request decision layer
//! that turns one request into commands for that writer.
//!
//! Everything here is plain values in and plain values out; the surrounding
//! program owns the sockets, the threads and the real flash.

pub mod scan;

pub mod decimal;

pub mod multipart;

pub mod writer;

pub mod coordinator;
