//! Device drivers: the protocol and state logic of each device class.
pub mod block;
pub mod bus;
pub mod device;
pub mod display;
pub mod input;
pub mod net;
pub mod usb;
pub mod virtio;
