//! The core of a media player: what it decides, parses and computes.
pub mod audio;
pub mod byte_stream;
pub mod decode;
pub mod display;
pub mod download;
pub mod failure;
pub mod linux;
pub mod pixels;
pub mod player;
pub mod playlist;
pub mod prefetch;
pub mod probe;
pub mod remux;
pub mod rendition;
pub mod request;
pub mod source;
pub mod stream_buffer;
pub mod temp_files;
pub mod text;
pub mod units;

pub use player::{Cmd, MediaInfo, Player, PlayerState, SnekMediaInfo, SnekVideoFrame, VideoFrame};
