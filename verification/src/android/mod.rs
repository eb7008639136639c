//! Seamless Android control: what is said to the tablet.
//!
//! Android forbids ordinary apps from injecting a free cursor, so scrcpy's on-device
//! server is the injection engine: pushed over adb, it exposes a control socket. Two
//! virtual devices are registered there, a mouse and a keyboard; captured motion,
//! buttons, wheel and keys become reports of theirs. Android then draws a real system
//! pointer on the tablet's own screen.
pub mod connect;
pub mod control;
pub mod devices;
pub mod promises;
pub mod writer;
