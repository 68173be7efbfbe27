//! The core of a self-hosted meeting server: who may reach it, what its commands do,
//! how recordings are split and told, and how uploads and summaries are worked off.
//!
//! Nothing here touches a socket, a file or a clock. Where the server needs the
//! database, an engine, the network or the disk, a function of this library returns the
//! action that is to be performed, and is handed the outcome; so commands
//! ([`dispatch`]), summaries ([`jobs`]), recordings ([`live`]), transcriptions
//! ([`transcription`]) and imports ([`imports`]) are conversations.

pub mod args;
pub mod auth;
pub mod commands;
pub mod conversations;
pub mod dispatch;
pub mod engines;
pub mod error;
pub mod events;
pub mod imports;
pub mod jobs;
pub mod json;
pub mod live;
pub mod meetings;
pub mod outside;
pub mod paths;
pub mod pcm;
pub mod protocol;
pub mod routes;
pub mod segmenter;
pub mod settings;
pub mod startup;
pub mod state;
pub mod summary;
pub mod text;
pub mod transcription;
pub mod upload;
