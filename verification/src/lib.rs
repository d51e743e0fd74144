//! `obsbot-tiny3` — the control protocol of the OBSBOT Tiny 3 series webcam,
//! with its framing, checksums, command encodings and decision logic verified.
//!
//! The camera speaks a UVC extension-unit vendor protocol (bUnitID 2, framed
//! "V3" frames on selector 2, raw TLVs on selector 6). This crate computes
//! every byte that is written to the camera and decodes every byte read back;
//! the syscalls themselves are made by the caller.

pub mod cli;
pub mod config;
pub mod controls;
pub mod crc;
pub mod device;
pub mod discover;
pub mod error;
pub mod frame;
pub mod guard;
pub mod op;
pub mod text;

pub use device::{Status, TrackMode};
pub use error::{Error, Result};
