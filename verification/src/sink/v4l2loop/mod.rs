//! Linux sink: streams frames into v4l2loopback device nodes.
//!
//! - [`distro`]: distribution detection and install commands
//! - [`discovery`]: device enumeration and validation
//! - [`permissions`]: device access and module parameters
//! - [`module`], [`module_ops`]: kernel module management
//! - [`scaling`]: resolution scaling with pre-computed tables
//! - [`active`]: negotiation with an open device
//! - [`sink`], [`multi_sink`]: one device, and one device per app
//! - [`usage`]: which processes hold a device open

pub mod active;
pub mod discovery;
pub mod distro;
pub mod module;
pub mod module_ops;
pub mod multi_sink;
pub mod permissions;
pub mod scaling;
pub mod sink;
pub mod usage;
