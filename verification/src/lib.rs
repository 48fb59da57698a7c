//! Twitch chat translator: the rules that turn chat lines, transcripts and
//! service replies into messages, cache keys, requests and terminal lines.

pub mod api;
pub mod cache;
pub mod clock;
pub mod config;
pub mod display;
pub mod events;
pub mod irc;
pub mod json;
pub mod language;
pub mod letter_case;
pub mod number;
pub mod percent;
pub mod style;
pub mod text;
pub mod transcription;
pub mod translator;
pub mod twitch;
pub mod web;
