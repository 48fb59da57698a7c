//! Shared event types for WebSocket broadcasting.
//!
//! The program around the library serializes them to JSON for the web UI.

use vstd::prelude::*;

pub use crate::clock::current_timestamp_ms;

verus! {

/// Envelope for all WebSocket events sent to connected clients.
#[derive(Debug, Clone)]
pub enum WebEvent {
    /// A chat message with optional translation data.
    ChatMessage(ChatMessageEvent),
    /// A finalized audio transcription with optional translation.
    Transcription(TranscriptionMessageEvent),
    /// Notification that the active Twitch channel has changed.
    ChannelChanged(ChannelChangedEvent),
}

/// A chat message event broadcast to WebSocket clients.
#[derive(Debug, Clone)]
pub struct ChatMessageEvent {
    /// Display name of the message author.
    pub username: String,
    /// User's Twitch chat color in hex (e.g., "#FF0000"), or null.
    pub color: Option<String>,
    /// Whether the user is the broadcaster.
    pub is_broadcaster: bool,
    /// Whether the user is a moderator.
    pub is_mod: bool,
    /// Whether the user is a VIP.
    pub is_vip: bool,
    /// The original message text.
    pub content: String,
    /// The translated text, if translation was performed.
    pub translation: Option<String>,
    /// Romanization/pronunciation of the source text, if available.
    pub romanization: Option<String>,
    /// Detected or forced source language code (e.g., "ru").
    pub source_language: Option<String>,
    /// Human-readable language name (e.g., "Russian").
    pub language_name: Option<String>,
    /// Reply context if this message is a reply to another.
    pub reply_to: Option<ReplyContext>,
    /// Unix timestamp in milliseconds when this event was created.
    pub timestamp: u64,
}

/// Reply context for threaded chat messages.
#[derive(Debug, Clone)]
pub struct ReplyContext {
    /// Display name of the parent message author.
    pub parent_username: String,
    /// The parent message text being replied to.
    pub parent_message: String,
}

/// A finalized audio transcription event broadcast to WebSocket clients.
#[derive(Debug, Clone)]
pub struct TranscriptionMessageEvent {
    /// The transcribed text.
    pub transcript: String,
    /// The translated text, if translation was performed.
    pub translation: Option<String>,
    /// Romanization/pronunciation, if available.
    pub romanization: Option<String>,
    /// Source language code (e.g., "ru").
    pub source_language: Option<String>,
    /// Human-readable language name (e.g., "Russian").
    pub language_name: Option<String>,
    /// Unix timestamp in milliseconds when this event was created.
    pub timestamp: u64,
}

/// Event broadcast when the active Twitch channel changes at runtime.
#[derive(Debug, Clone)]
pub struct ChannelChangedEvent {
    /// The new Twitch channel name (without #).
    pub channel: String,
    /// Unix timestamp in milliseconds when the switch occurred.
    pub timestamp: u64,
}

/// What a [`ReplyContext`] holds.
pub struct ReplyContextModel {
    pub parent_username: Seq<char>,
    pub parent_message: Seq<char>,
}

/// What a [`ChatMessageEvent`] holds.
pub struct ChatEventModel {
    pub username: Seq<char>,
    pub color: Option<Seq<char>>,
    pub is_broadcaster: bool,
    pub is_mod: bool,
    pub is_vip: bool,
    pub content: Seq<char>,
    pub translation: Option<Seq<char>>,
    pub romanization: Option<Seq<char>>,
    pub source_language: Option<Seq<char>>,
    pub language_name: Option<Seq<char>>,
    pub reply_to: Option<ReplyContextModel>,
    pub timestamp: u64,
}

/// What a [`TranscriptionMessageEvent`] holds.
pub struct TranscriptEventModel {
    pub transcript: Seq<char>,
    pub translation: Option<Seq<char>>,
    pub romanization: Option<Seq<char>>,
    pub source_language: Option<Seq<char>>,
    pub language_name: Option<Seq<char>>,
    pub timestamp: u64,
}

/// What a [`WebEvent`] holds.
pub enum WebEventModel {
    ChatMessage(ChatEventModel),
    Transcription(TranscriptEventModel),
    ChannelChanged { channel: Seq<char>, timestamp: u64 },
}

impl DeepView for ReplyContext {
    type V = ReplyContextModel;

    open spec fn deep_view(&self) -> ReplyContextModel {
        ReplyContextModel {
            parent_username: self.parent_username@,
            parent_message: self.parent_message@,
        }
    }
}

impl DeepView for ChatMessageEvent {
    type V = ChatEventModel;

    open spec fn deep_view(&self) -> ChatEventModel {
        ChatEventModel {
            username: self.username@,
            color: self.color.deep_view(),
            is_broadcaster: self.is_broadcaster,
            is_mod: self.is_mod,
            is_vip: self.is_vip,
            content: self.content@,
            translation: self.translation.deep_view(),
            romanization: self.romanization.deep_view(),
            source_language: self.source_language.deep_view(),
            language_name: self.language_name.deep_view(),
            reply_to: self.reply_to.deep_view(),
            timestamp: self.timestamp,
        }
    }
}

impl DeepView for TranscriptionMessageEvent {
    type V = TranscriptEventModel;

    open spec fn deep_view(&self) -> TranscriptEventModel {
        TranscriptEventModel {
            transcript: self.transcript@,
            translation: self.translation.deep_view(),
            romanization: self.romanization.deep_view(),
            source_language: self.source_language.deep_view(),
            language_name: self.language_name.deep_view(),
            timestamp: self.timestamp,
        }
    }
}

impl DeepView for WebEvent {
    type V = WebEventModel;

    open spec fn deep_view(&self) -> WebEventModel {
        match self {
            WebEvent::ChatMessage(e) => WebEventModel::ChatMessage(e.deep_view()),
            WebEvent::Transcription(e) => WebEventModel::Transcription(e.deep_view()),
            WebEvent::ChannelChanged(e) => WebEventModel::ChannelChanged {
                channel: e.channel@,
                timestamp: e.timestamp,
            },
        }
    }
}

} // verus!
