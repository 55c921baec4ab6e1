//! The decisions behind a punktfunk streaming host and its installers, apart from the sockets,
//! files, devices and screens they act on.

pub mod civil;
pub mod json;
pub mod native;
pub mod native_pairing;
pub mod net_health;
pub mod pad_feed;
pub mod plugins;
pub mod power;
pub mod send_pacing;
pub mod setup;
pub mod setup_win;
pub mod stats_recorder;
pub mod text;
pub mod update;
