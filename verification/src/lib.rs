//! Verified core of a desktop input recorder and player: recorded input
//! sequences, their playback schedule, the remote-control protocol, the
//! hotkey tables and the decisions behind the toolbar and its dialogs.

pub mod text;
pub mod sequence;
pub mod player;
pub mod play_order;
pub mod hp_monitor;
pub mod network;
pub mod timing;
pub mod recorder;
pub mod win32_helpers;
pub mod config;
pub mod gui;
pub mod worker;
pub mod burst;
pub mod pet_cycle;
pub mod storage;
pub mod hotkeys;
