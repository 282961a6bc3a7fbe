//! Parsing, checking and planning support for DASH MPD manifests.
#![allow(non_snake_case)]

use vstd::prelude::*;

pub mod template;
pub mod text;
pub mod digits;
pub mod duration;
pub mod mpd;
pub mod scte35;
pub mod classify;
pub mod messages;
pub mod conformity;
pub mod selection;
pub mod split;
pub mod media;
pub mod planning;
pub mod vtt;
pub mod timeline;
pub mod urls;
pub mod fragments;
pub mod datetime;
pub mod xmlend;
pub mod period;
pub mod fetch;
pub mod addressing;
pub mod download;
pub mod subtitle_safety;
pub mod subtitles;
pub mod commands;
pub mod pssh;
pub mod sandbox;

verus! {

/// Errors reported by the library.
#[derive(Debug, Clone, PartialEq, Eq)]
pub enum DashMpdError {
    Parsing(String),
    InvalidDuration(String),
    InvalidDateTime(String),
    UnhandledMediaStream(String),
    /// An I/O failure: the description of the underlying error, and the context.
    Io(String, String),
    Network(String),
    NetworkTimeout(String),
    NetworkConnect(String),
    Muxing(String),
    Decrypting(String),
    Other(String),
}

} // verus!
