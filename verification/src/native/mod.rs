//! The native session: audio clock, control stream, video data plane.

pub mod audio;
pub mod control;
pub mod motion_cadence;
pub mod pad_audio;
pub mod pcm;
pub mod pts_clock;
pub mod stream;
