pub mod adb_cmd;
pub mod app;
pub mod apps;
pub mod audio_player;
pub mod autostart;
pub mod console;
pub mod daemon;
pub mod device_map;
pub mod device_refresh;
pub mod fusion;
pub mod ipc;
pub mod notification;
pub mod proto;
pub mod protocol;
pub mod scrcpy;
pub mod seqs;
pub mod session;
pub mod settings;
pub mod text;
pub mod text_set;
pub mod tray;
pub mod types;
pub mod ui;
pub mod viewer;
pub mod wire;
pub mod wireless_pair;
