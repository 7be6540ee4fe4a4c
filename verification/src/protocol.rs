//! What adb and the phone print, and how it is read.
pub mod clipboard;
pub mod devices;
pub mod notification;
