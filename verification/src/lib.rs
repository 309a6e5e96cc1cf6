//! Enumeration of Human Interface Devices (HID).
//!
//! The library holds the logic of a best-effort device scan: for each index in
//! the operating system's HID device-interface class it decides, from the raw
//! answers the OS gave, whether the scan stops or one more [`types::HidDeviceInfo`]
//! record is produced, and what every field of that record is.  The operating
//! system calls themselves live outside the library; the logic here is a pure
//! function of their results.

pub mod hid;
pub mod iface;
pub mod text;
pub mod types;
