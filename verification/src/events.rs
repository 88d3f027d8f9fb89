//! Events the engine announces to the connected front ends.

use vstd::prelude::*;
use crate::models::{TorrentInfo, Progress};

verus! {

/// Something that happened in the engine.
#[derive(Debug)]
pub enum TorrentEvent {
    /// New figures for one torrent.
    TorrentProgress {
        id: String,
        downloaded: u64,
        total: u64,
        speed_down: u64,
        speed_up: u64,
        peers: u32,
        eta_secs: Option<u64>,
        progress: Progress,
    },
    /// A torrent was added.
    TorrentAdded { torrent: TorrentInfo },
    /// A torrent finished downloading.
    TorrentFinished { id: String },
    /// A torrent failed.
    TorrentError { id: String, message: String },
    /// New figures for the whole session.
    GlobalStats { speed_down: u64, speed_up: u64, active_torrents: u32 },
}

} // verus!
