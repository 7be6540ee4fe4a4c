//! The direct UDP protocol between the desktop and the server on the phone.
pub mod codec;
pub mod delivery;
pub mod messages;
pub mod msgs;
pub mod reliable;
pub mod session;
