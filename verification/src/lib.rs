//! Verified logic of a handful of small system scripts: a systemd-safe
//! escaper for automount units, an ADSL account page reader, a LostFilm
//! RSS/torrent pipeline with its Transmission RPC handshake, and the
//! planning step of a dynamic DNS updater.
pub mod text;
pub mod automount;
pub mod feed;
pub mod adsl;
pub mod transmission;
pub mod lostfilm;
pub mod dyndns;
pub mod matching;
pub mod outside;
