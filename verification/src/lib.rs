//! Frame acquisition engine: the decisions behind extracting decoded video
//! frames at arbitrary timestamps, with every item verified.
//!
//! The demuxer and the decoder stay outside. A caller performs the action a
//! session asks for, hands back what happened, and the session decides what
//! comes next.

pub mod clock;
pub mod dispatcher;
pub mod display_size;
pub mod eviction;
pub mod frame_cache;
pub mod opened_stream;
pub mod opened_video_manager;
pub mod opening;
pub mod scalable_frame;
pub mod stream_laws;
pub mod text;
