//! Cutting one long recording into chunks that can be handled one by one,
//! and what goes with it: reading what is known of a video, its captions
//! and its timeline, and asking for a summary.
//!
//! The cutting comes in two kinds. [`stream_copy`] plans the chunks of a
//! compressed source and says, packet by packet, what is copied and with
//! which timestamp ([`planner`], [`timestamps`]). [`pcm`] cuts decoded
//! samples. Both name their files alike ([`naming`]). Nothing in this crate
//! opens a file or a connection: it is handed what was read, and says what
//! is to be written.

pub mod captions;
pub mod decimal;
pub mod download;
pub mod gemini;
pub mod naming;
pub mod pattern;
pub mod pcm;
pub mod planner;
pub mod prompts;
pub mod records;
pub mod settings;
pub mod stream_copy;
pub mod summary;
pub mod text;
pub mod timeline;
pub mod timestamps;
pub mod video;
pub mod webvtt;
