//! Verified core of a self-hosted media server: subtitle conversion,
//! language guessing, probe-output parsing, search-result assembly,
//! transcode job bookkeeping and the text utilities they rest on.

pub mod text;
pub mod trusted;
pub mod subtitles;
pub mod language;
pub mod sorting;
pub mod paths;
pub mod sizes;
pub mod library;
pub mod transcode;
pub mod search;
pub mod table;
pub mod subs;
pub mod torrent;
pub mod tmdb;
pub mod dom;
pub mod server;
