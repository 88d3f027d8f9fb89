//! Verified core of the Ferroload BitTorrent client.

pub mod text;
pub mod models;
pub mod events;
pub mod keyed;
pub mod magnet;
pub mod torrent_file;
pub mod session;
pub mod settings;
pub mod tracker;
pub mod web;
