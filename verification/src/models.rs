//! The data the engine keeps about torrents, files, peers and its settings.

use vstd::prelude::*;
use crate::text::str_eq;

verus! {

/// Where a torrent stands.
#[derive(Clone, Copy, Debug, PartialEq, Eq, Structural)]
pub enum TorrentStatus {
    Paused,
    Downloading,
    Seeding,
    Error,
    Checking,
    Queued,
}

impl TorrentStatus {
    /// The lowercase name under which a status is shown and stored.
    pub open spec fn name(self) -> Seq<char> {
        match self {
            TorrentStatus::Paused => "paused"@,
            TorrentStatus::Downloading => "downloading"@,
            TorrentStatus::Seeding => "seeding"@,
            TorrentStatus::Error => "error"@,
            TorrentStatus::Checking => "checking"@,
            TorrentStatus::Queued => "queued"@,
        }
    }

    /// The status a stored name stands for; a name that is not one of the
    /// known ones (including "paused") reads as `Paused`.
    pub open spec fn from_name(s: Seq<char>) -> TorrentStatus {
        if s == "downloading"@ {
            TorrentStatus::Downloading
        } else if s == "seeding"@ {
            TorrentStatus::Seeding
        } else if s == "error"@ {
            TorrentStatus::Error
        } else if s == "checking"@ {
            TorrentStatus::Checking
        } else if s == "queued"@ {
            TorrentStatus::Queued
        } else {
            TorrentStatus::Paused
        }
    }

    /// The display name of the status.
    pub fn to_string(&self) -> (r: String)
        ensures
            r@ == self.name(),
    {
        let s: &str = match self {
            TorrentStatus::Paused => "paused",
            TorrentStatus::Downloading => "downloading",
            TorrentStatus::Seeding => "seeding",
            TorrentStatus::Error => "error",
            TorrentStatus::Checking => "checking",
            TorrentStatus::Queued => "queued",
        };
        s.to_owned()
    }

    /// Reads a status from its name; unknown names read as `Paused`.
    pub fn from_str(s: &str) -> (r: TorrentStatus)
        ensures
            r == Self::from_name(s@),
    {
        if str_eq(s, "downloading") {
            TorrentStatus::Downloading
        } else if str_eq(s, "seeding") {
            TorrentStatus::Seeding
        } else if str_eq(s, "error") {
            TorrentStatus::Error
        } else if str_eq(s, "checking") {
            TorrentStatus::Checking
        } else if str_eq(s, "queued") {
            TorrentStatus::Queued
        } else {
            TorrentStatus::Paused
        }
    }
}

/// Reading back the name of a status gives the status again.
pub proof fn lemma_status_name_round_trip(s: TorrentStatus)
    ensures
        TorrentStatus::from_name(s.name()) == s,
{
    reveal_strlit("paused");
    reveal_strlit("downloading");
    reveal_strlit("seeding");
    reveal_strlit("error");
    reveal_strlit("checking");
    reveal_strlit("queued");
    assert("paused"@.len() == 6 && "paused"@[0] == 'p');
    assert("downloading"@.len() == 11);
    assert("seeding"@.len() == 7);
    assert("error"@.len() == 5);
    assert("checking"@.len() == 8);
    assert("queued"@.len() == 6 && "queued"@[0] == 'q');
}

/// The order in which pieces of a torrent are requested.
#[derive(Clone, Copy, Debug, PartialEq, Eq, Structural)]
pub enum PieceStrategy {
    RarestFirst,
    Sequential,
    Random,
}

impl PieceStrategy {
    /// The snake_case name of the strategy.
    pub open spec fn name(self) -> Seq<char> {
        match self {
            PieceStrategy::RarestFirst => "rarest_first"@,
            PieceStrategy::Sequential => "sequential"@,
            PieceStrategy::Random => "random"@,
        }
    }

    /// The strategy a name stands for; unknown names read as `RarestFirst`.
    pub open spec fn from_name(s: Seq<char>) -> PieceStrategy {
        if s == "sequential"@ {
            PieceStrategy::Sequential
        } else if s == "random"@ {
            PieceStrategy::Random
        } else {
            PieceStrategy::RarestFirst
        }
    }

    /// The display name of the strategy.
    pub fn to_string(&self) -> (r: String)
        ensures
            r@ == self.name(),
    {
        let s: &str = match self {
            PieceStrategy::RarestFirst => "rarest_first",
            PieceStrategy::Sequential => "sequential",
            PieceStrategy::Random => "random",
        };
        s.to_owned()
    }

    /// Reads a strategy from its name; unknown names read as `RarestFirst`.
    pub fn from_str(s: &str) -> (r: PieceStrategy)
        ensures
            r == Self::from_name(s@),
    {
        if str_eq(s, "sequential") {
            PieceStrategy::Sequential
        } else if str_eq(s, "random") {
            PieceStrategy::Random
        } else {
            PieceStrategy::RarestFirst
        }
    }
}

/// Reading back the name of a strategy gives the strategy again.
pub proof fn lemma_strategy_name_round_trip(s: PieceStrategy)
    ensures
        PieceStrategy::from_name(s.name()) == s,
{
    reveal_strlit("rarest_first");
    reveal_strlit("sequential");
    reveal_strlit("random");
    assert("rarest_first"@.len() == 12);
    assert("sequential"@.len() == 10);
    assert("random"@.len() == 6);
}

impl Default for PieceStrategy {
    /// Rarest-first is the default: it keeps the swarm healthy.
    fn default() -> (r: Self)
        ensures
            r == PieceStrategy::RarestFirst,
    {
        PieceStrategy::RarestFirst
    }
}

/// Settings of the whole engine.
#[derive(Clone, Copy, Debug, PartialEq, Eq, Structural)]
pub struct EngineConfig {
    /// Connection pool: most peers shown or used per torrent.
    pub max_connections_per_torrent: u32,
    pub max_total_connections: u32,
    /// Peer discovery switches.
    pub dht_enabled: bool,
    pub pex_enabled: bool,
    pub lsd_enabled: bool,
    /// Throttles in bytes per second; 0 means unlimited.
    pub max_upload_bps: u64,
    pub max_download_bps: u64,
    /// Capacity of the disk write buffer of each torrent, in bytes.
    pub write_buffer_bytes: u64,
    /// Whether uTP is used.
    pub utp_enabled: bool,
}

impl EngineConfig {
    /// The configuration an engine starts with.
    pub open spec fn default_spec() -> EngineConfig {
        EngineConfig {
            max_connections_per_torrent: 80,
            max_total_connections: 500,
            dht_enabled: true,
            pex_enabled: true,
            lsd_enabled: true,
            max_upload_bps: 0,
            max_download_bps: 0,
            write_buffer_bytes: 4194304,
            utp_enabled: true,
        }
    }
}

impl Default for EngineConfig {
    fn default() -> (r: Self)
        ensures
            r == EngineConfig::default_spec(),
    {
        EngineConfig {
            max_connections_per_torrent: 80,
            max_total_connections: 500,
            dht_enabled: true,
            pex_enabled: true,
            lsd_enabled: true,
            max_upload_bps: 0,
            max_download_bps: 0,
            write_buffer_bytes: 4 * 1024 * 1024,
            utp_enabled: true,
        }
    }
}

/// Per-torrent settings sent by the user; `None` leaves a setting as it is.
#[derive(Clone, Copy, Debug, PartialEq, Eq, Structural)]
pub struct TorrentConfig {
    pub piece_strategy: Option<PieceStrategy>,
    pub superseeding: Option<bool>,
}

/// Priority of one file of a torrent.
#[derive(Clone, Copy, Debug, PartialEq, Eq, Structural)]
pub enum FilePriority {
    High,
    Normal,
    Skip,
}

impl FilePriority {
    /// The lowercase name of a priority.
    pub open spec fn name(self) -> Seq<char> {
        match self {
            FilePriority::High => "high"@,
            FilePriority::Normal => "normal"@,
            FilePriority::Skip => "skip"@,
        }
    }

    /// The priority a name stands for, if any.
    pub open spec fn parse_name(s: Seq<char>) -> Option<FilePriority> {
        if s == "high"@ {
            Some(FilePriority::High)
        } else if s == "normal"@ {
            Some(FilePriority::Normal)
        } else if s == "skip"@ {
            Some(FilePriority::Skip)
        } else {
            None
        }
    }

    /// Reads a priority from its name; other names are refused.
    pub fn from_name(s: &str) -> (r: Option<FilePriority>)
        ensures
            r == Self::parse_name(s@),
    {
        if str_eq(s, "high") {
            Some(FilePriority::High)
        } else if str_eq(s, "normal") {
            Some(FilePriority::Normal)
        } else if str_eq(s, "skip") {
            Some(FilePriority::Skip)
        } else {
            None
        }
    }
}

/// Reading back the name of a file priority gives the priority again.
pub proof fn lemma_priority_name_round_trip(p: FilePriority)
    ensures
        FilePriority::parse_name(p.name()) == Some(p),
{
    reveal_strlit("high");
    reveal_strlit("normal");
    reveal_strlit("skip");
    assert("high"@.len() == 4 && "high"@[0] == 'h');
    assert("normal"@.len() == 6);
    assert("skip"@.len() == 4 && "skip"@[0] == 's');
}

/// A share of work done, as the fraction `done / total`.
///
/// The front end shows it as a number between 0 and 1.
#[derive(Clone, Copy, Debug, PartialEq, Eq, Structural)]
pub struct Progress {
    pub done: u64,
    pub total: u64,
}

impl Progress {
    /// Nothing done yet.
    pub open spec fn none_spec() -> Progress {
        Progress { done: 0, total: 1 }
    }

    /// Whether the fraction has reached 1.
    pub open spec fn is_full(self) -> bool {
        self.total > 0 && self.done >= self.total
    }

    /// Nothing done yet.
    pub fn none() -> (r: Progress)
        ensures
            r == Progress::none_spec(),
    {
        Progress { done: 0, total: 1 }
    }

    /// Whether the fraction has reached 1.
    pub fn full(&self) -> (r: bool)
        ensures
            r == self.is_full(),
    {
        self.total > 0 && self.done >= self.total
    }
}

/// One file of a torrent.
#[derive(Debug)]
pub struct TorrentFile {
    pub name: String,
    pub path: String,
    pub size: u64,
    pub downloaded: u64,
    pub progress: Progress,
    pub priority: FilePriority,
}

/// The value of a [`TorrentFile`].
pub struct TorrentFileView {
    pub name: Seq<char>,
    pub path: Seq<char>,
    pub size: u64,
    pub downloaded: u64,
    pub progress: Progress,
    pub priority: FilePriority,
}

impl View for TorrentFile {
    type V = TorrentFileView;

    open spec fn view(&self) -> TorrentFileView {
        TorrentFileView {
            name: self.name@,
            path: self.path@,
            size: self.size,
            downloaded: self.downloaded,
            progress: self.progress,
            priority: self.priority,
        }
    }
}

impl Clone for TorrentFile {
    fn clone(&self) -> (r: Self)
        ensures
            r@ == self@,
    {
        TorrentFile {
            name: self.name.clone(),
            path: self.path.clone(),
            size: self.size,
            downloaded: self.downloaded,
            progress: self.progress,
            priority: self.priority,
        }
    }
}

/// One peer of a torrent as the peer list shows it.
#[derive(Debug)]
pub struct PeerInfo {
    pub ip: String,
    pub port: u16,
    pub client: String,
    pub speed_down: u64,
    pub speed_up: u64,
    pub progress: Progress,
    /// Transport and discovery flags, e.g. "uT D DHT" or "TCP".
    pub flags: String,
}

/// The value of a [`PeerInfo`].
pub struct PeerInfoView {
    pub ip: Seq<char>,
    pub port: u16,
    pub client: Seq<char>,
    pub speed_down: u64,
    pub speed_up: u64,
    pub progress: Progress,
    pub flags: Seq<char>,
}

impl View for PeerInfo {
    type V = PeerInfoView;

    open spec fn view(&self) -> PeerInfoView {
        PeerInfoView {
            ip: self.ip@,
            port: self.port,
            client: self.client@,
            speed_down: self.speed_down,
            speed_up: self.speed_up,
            progress: self.progress,
            flags: self.flags@,
        }
    }
}

/// Figures of the whole session.
#[derive(Clone, Copy, Debug, PartialEq, Eq, Structural)]
pub struct GlobalStats {
    pub speed_down: u64,
    pub speed_up: u64,
    pub total_downloaded: u64,
    pub total_uploaded: u64,
    pub active_torrents: u32,
    pub paused_torrents: u32,
    pub seeding_torrents: u32,
    pub dht_nodes: u32,
    pub pex_peers: u32,
    pub lsd_peers: u32,
    pub write_buffer_used: u64,
    pub write_buffer_capacity: u64,
}

impl Default for GlobalStats {
    fn default() -> (r: Self)
        ensures
            r == (GlobalStats {
                speed_down: 0,
                speed_up: 0,
                total_downloaded: 0,
                total_uploaded: 0,
                active_torrents: 0,
                paused_torrents: 0,
                seeding_torrents: 0,
                dht_nodes: 0,
                pex_peers: 0,
                lsd_peers: 0,
                write_buffer_used: 0,
                write_buffer_capacity: 0,
            }),
    {
        GlobalStats {
            speed_down: 0,
            speed_up: 0,
            total_downloaded: 0,
            total_uploaded: 0,
            active_torrents: 0,
            paused_torrents: 0,
            seeding_torrents: 0,
            dht_nodes: 0,
            pex_peers: 0,
            lsd_peers: 0,
            write_buffer_used: 0,
            write_buffer_capacity: 0,
        }
    }
}

/// State of the announce to one tracker.
#[derive(Clone, Copy, Debug, PartialEq, Eq, Structural)]
pub enum TrackerStatus {
    Idle,
    Announcing,
    /// The last announce succeeded.
    Okay,
    Error,
}

impl Default for TrackerStatus {
    fn default() -> (r: Self)
        ensures
            r == TrackerStatus::Idle,
    {
        TrackerStatus::Idle
    }
}

/// What is known of one tracker of a torrent.
#[derive(Debug)]
pub struct TrackerInfo {
    pub url: String,
    pub status: TrackerStatus,
    pub seeders: u32,
    pub leechers: u32,
    pub last_announce: Option<i64>,
    pub next_announce: Option<i64>,
    pub message: Option<String>,
}

impl Default for TrackerInfo {
    fn default() -> (r: Self)
        ensures
            r.url@ == Seq::<char>::empty(),
            r.status == TrackerStatus::Idle,
            r.seeders == 0,
            r.leechers == 0,
            r.last_announce is None,
            r.next_announce is None,
            r.message is None,
    {
        TrackerInfo {
            url: String::new(),
            status: TrackerStatus::Idle,
            seeders: 0,
            leechers: 0,
            last_announce: None,
            next_announce: None,
            message: None,
        }
    }
}

/// Everything the engine keeps about one torrent.
#[derive(Debug)]
pub struct TorrentInfo {
    pub id: String,
    pub name: String,
    pub info_hash: String,
    pub size: u64,
    pub downloaded: u64,
    pub uploaded: u64,
    pub progress: Progress,
    pub status: TorrentStatus,
    pub speed_down: u64,
    pub speed_up: u64,
    pub peers: u32,
    pub seeds: u32,
    pub eta_secs: Option<u64>,
    pub download_path: String,
    pub label: Option<String>,
    pub added_at: i64,
    pub files: Vec<TorrentFile>,
    pub piece_strategy: PieceStrategy,
    pub superseeding: bool,
    pub metadata_ready: bool,
    pub trackers: Vec<String>,
}

/// The value of a [`TorrentInfo`].
pub struct TorrentInfoView {
    pub id: Seq<char>,
    pub name: Seq<char>,
    pub info_hash: Seq<char>,
    pub size: u64,
    pub downloaded: u64,
    pub uploaded: u64,
    pub progress: Progress,
    pub status: TorrentStatus,
    pub speed_down: u64,
    pub speed_up: u64,
    pub peers: u32,
    pub seeds: u32,
    pub eta_secs: Option<u64>,
    pub download_path: Seq<char>,
    pub label: Option<Seq<char>>,
    pub added_at: i64,
    pub files: Seq<TorrentFileView>,
    pub piece_strategy: PieceStrategy,
    pub superseeding: bool,
    pub metadata_ready: bool,
    pub trackers: Seq<Seq<char>>,
}

/// The values of a list of strings.
pub open spec fn string_views(v: Seq<String>) -> Seq<Seq<char>> {
    v.map_values(|s: String| s@)
}

/// The values of a list of files.
pub open spec fn file_views(v: Seq<TorrentFile>) -> Seq<TorrentFileView> {
    v.map_values(|f: TorrentFile| f@)
}

/// The value of an optional string.
pub open spec fn opt_view(o: Option<String>) -> Option<Seq<char>> {
    match o {
        Some(s) => Some(s@),
        None => None,
    }
}

impl View for TorrentInfo {
    type V = TorrentInfoView;

    open spec fn view(&self) -> TorrentInfoView {
        TorrentInfoView {
            id: self.id@,
            name: self.name@,
            info_hash: self.info_hash@,
            size: self.size,
            downloaded: self.downloaded,
            uploaded: self.uploaded,
            progress: self.progress,
            status: self.status,
            speed_down: self.speed_down,
            speed_up: self.speed_up,
            peers: self.peers,
            seeds: self.seeds,
            eta_secs: self.eta_secs,
            download_path: self.download_path@,
            label: opt_view(self.label),
            added_at: self.added_at,
            files: file_views(self.files@),
            piece_strategy: self.piece_strategy,
            superseeding: self.superseeding,
            metadata_ready: self.metadata_ready,
            trackers: string_views(self.trackers@),
        }
    }
}

/// A copy of a list of files.
pub fn clone_files(v: &Vec<TorrentFile>) -> (r: Vec<TorrentFile>)
    ensures
        file_views(r@) == file_views(v@),
{
    let r = v.clone();
    assert(file_views(r@) =~= file_views(v@));
    r
}

/// A copy of a list of strings.
pub fn clone_strings(v: &Vec<String>) -> (r: Vec<String>)
    ensures
        string_views(r@) == string_views(v@),
{
    let r = v.clone();
    assert(string_views(r@) =~= string_views(v@));
    r
}

/// A copy of an optional string.
pub fn clone_opt(o: &Option<String>) -> (r: Option<String>)
    ensures
        opt_view(r) == opt_view(*o),
{
    match o {
        Some(s) => Some(s.clone()),
        None => None,
    }
}

impl Clone for TorrentInfo {
    fn clone(&self) -> (r: Self)
        ensures
            r@ == self@,
    {
        TorrentInfo {
            id: self.id.clone(),
            name: self.name.clone(),
            info_hash: self.info_hash.clone(),
            size: self.size,
            downloaded: self.downloaded,
            uploaded: self.uploaded,
            progress: self.progress,
            status: self.status,
            speed_down: self.speed_down,
            speed_up: self.speed_up,
            peers: self.peers,
            seeds: self.seeds,
            eta_secs: self.eta_secs,
            download_path: self.download_path.clone(),
            label: clone_opt(&self.label),
            added_at: self.added_at,
            files: clone_files(&self.files),
            piece_strategy: self.piece_strategy,
            superseeding: self.superseeding,
            metadata_ready: self.metadata_ready,
            trackers: clone_strings(&self.trackers),
        }
    }
}

} // verus!
