//! The viewer: a window that shows one application of the phone and passes input on to it.
pub mod app;
pub mod args;
pub mod control;
pub mod decoder;
pub mod keys;
pub mod laws;
pub mod rounding;
pub mod server;
pub mod video;
pub mod yuv;
