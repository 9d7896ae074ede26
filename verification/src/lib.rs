//! Decisions of a media server's playback endpoints.

pub mod hls;
pub mod hls_segment;
pub mod hls_session;
pub mod ids;
pub mod language;
pub mod media;
pub mod media_info;
pub mod number;
pub mod playlist;
pub mod probe;
pub mod ranking;
pub mod reply;
pub mod stream_service;
pub mod subtitle_cache;
pub mod subtitle_index;
pub mod subtitle_stream;
pub mod text;
pub mod transcode;
pub mod words;
