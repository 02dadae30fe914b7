//! The logic of vcam-proxy: frames from a physical camera (or a still image) are
//! converted to a wire format that every app accepts and fed into virtual
//! loopback cameras.
//!
//! Everything here is verified. Devices, threads, files and windows live in the
//! program around it, which hands in what it observed and carries out what the
//! library decides.

pub mod capture;
pub mod cli_cmds;
pub mod config;
pub mod controller;
pub mod convert;
pub mod frame;
pub mod grab;
pub mod image_source;
pub mod messages;
pub mod pipeline;
pub mod settings;
pub mod shutdown;
pub mod sink;
pub mod text;
pub mod tray;
pub mod ui;
