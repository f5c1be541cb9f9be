//! Client library for a mesh-radio device that speaks a framed text protocol
//! over one serial byte stream.
//!
//! The pieces, leaves first: a COBS frame codec, a receive buffer that cuts
//! lines and frames out of the byte stream, the command/response engine with
//! its skip budget, the monitor-event decoder, and the state that the
//! terminal front end keeps. Nothing here performs I/O: callers hand bytes,
//! timeouts and clock readings in, and take bytes and decisions out.
pub mod boards;
pub mod channels;
pub mod cli;
pub mod codec;
pub mod commands;
pub mod device;
pub mod events;
pub mod firmware;
pub mod json;
pub mod monitor;
pub mod number;
pub mod protocol;
pub mod records;
pub mod telemetry;
pub mod text;
pub mod transport;
pub mod ui;

pub use codec::{cobs_decode, cobs_encode};
