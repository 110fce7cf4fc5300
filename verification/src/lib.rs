//! Verified core of an input-device proxy. A proxy presents one virtual input
//! device and forwards to it the events of the physical devices that its
//! selectors pick, while those are plugged in and out.
//!
//! - [`config`]: the configured virtual devices and their selectors.
//! - [`device`], [`filter`], [`hexid`], [`text`]: what udev tells of a
//!   device, and the filters that decide whether a device is picked.
//! - [`listener`]: which present devices and which changes become
//!   notifications, and in what order.
//! - [`proxydev`]: the registry of a proxy's sources and the decisions of its
//!   forwarding loop. [`reader`]: the decisions of the reader of one source.
//! - [`forwarding`], [`channels`]: what holds of every run of a proxy,
//!   however the steps of readers, registry and loop interleave.
//!
//! Nothing here opens a device, waits, or starts a thread: the program around
//! this library does that, hands over what came of it, and carries out what
//! the library decides.

pub mod channels;
pub mod config;
pub mod device;
pub mod filter;
pub mod forwarding;
pub mod hexid;
pub mod listener;
pub mod proxydev;
pub mod reader;
pub mod text;
