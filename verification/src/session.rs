//! A session with one phone.
pub mod audio;
pub mod config;
pub mod deploy;
pub mod handle;
pub mod playback;
pub mod runner;
pub mod stream;
