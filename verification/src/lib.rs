//! Replays an archived chat export into a live channel.
//!
//! The library decides; the caller acts. It finds the local media that
//! stand for the attachments of a message, rewrites the text, renders the
//! reactions, composes the outbound messages within the platform's limits,
//! and steers the replay loop with its cancellation. Reading files, sending
//! and waiting are the caller's part: the library takes what was read and
//! what went out as plain values.
//!
//! - [`text`] and [`paths`]: text and path primitives.
//! - [`model`]: the export and the options of a replay.
//! - [`options`]: the command line, and the choice of messages.
//! - [`media`]: the media index and the claims on its files.
//! - [`content`], [`reactions`], [`embed`]: what a message shows.
//! - [`compose`]: the outbound messages of one message, by rendering mode.
//! - [`plan`]: the replay of one message, from media to follow-up.
//! - [`replay`]: the replay of a selection, and its reports.
//! - [`envfile`]: the settings file that keeps the access token.

pub mod compose;
pub mod content;
pub mod embed;
pub mod envfile;
pub mod media;
pub mod model;
pub mod options;
pub mod paths;
pub mod plan;
pub mod reactions;
pub mod replay;
pub mod text;
