//! The engine session: the torrents it manages, their write buffers, its
//! configuration and the peer discovery counters.

use vstd::prelude::*;
use vstd::string::StringExecFns;
use crate::keyed::StrMap;
use crate::text::{decimal, u64_to_decimal};
use crate::models::{
    TorrentInfo, TorrentInfoView, TorrentStatus, TorrentFile, TorrentFileView, TorrentConfig,
    EngineConfig, PieceStrategy, Progress, FilePriority, PeerInfo, PeerInfoView, GlobalStats, opt_view, string_views,
    file_views, clone_opt,
};
use crate::events::TorrentEvent;
use crate::magnet::{parse_magnet, magnet_fields, names_topic, MagnetError};
use crate::torrent_file::{
    BencodeTorrent, parse_torrent_file, info_hash_input_ok, size_fits, info_hash_of,
    torrent_name, torrent_size, torrent_files, torrent_trackers,
};

verus! {

/// The disk write buffer of one torrent: bytes are held until the buffer is
/// full, then committed to disk at once.
#[derive(Clone, Copy, Debug, PartialEq, Eq, Structural)]
pub struct WriteBuffer {
    pub buffered: u64,
    pub capacity: u64,
    pub flushed: u64,
}

impl View for WriteBuffer {
    type V = WriteBuffer;

    open spec fn view(&self) -> WriteBuffer {
        *self
    }
}

impl WriteBuffer {
    /// An empty buffer of the given capacity.
    pub fn new(capacity: u64) -> (b: WriteBuffer)
        ensures
            b == (WriteBuffer { buffered: 0, capacity, flushed: 0 }),
    {
        WriteBuffer { buffered: 0, capacity, flushed: 0 }
    }

    /// Whether writing `bytes` stays within `u64`.
    pub open spec fn can_write(self, bytes: u64) -> bool {
        &&& self.buffered + bytes <= u64::MAX
        &&& self.buffered + bytes >= self.capacity ==> self.flushed + self.buffered + bytes <= u64::MAX
    }

    /// Buffers `bytes`; when the buffer is then full, everything buffered
    /// is committed and the number of committed bytes is returned, else 0.
    pub fn write(&mut self, bytes: u64) -> (committed: u64)
        requires
            old(self).can_write(bytes),
        ensures
            final(self).capacity == old(self).capacity,
            final(self).flushed + final(self).buffered == old(self).flushed + old(self).buffered + bytes,
            final(self).buffered == 0 || final(self).buffered < final(self).capacity,
            old(self).buffered + bytes >= old(self).capacity ==> {
                &&& committed == old(self).buffered + bytes
                &&& *final(self) == WriteBuffer {
                    buffered: 0,
                    capacity: old(self).capacity,
                    flushed: (old(self).flushed + committed) as u64,
                }
            },
            old(self).buffered + bytes < old(self).capacity ==> {
                &&& committed == 0
                &&& *final(self) == WriteBuffer {
                    buffered: (old(self).buffered + bytes) as u64,
                    ..*old(self)
                }
            },
            (*final(self), committed as int) == write_step(*old(self), bytes),
    {
        self.buffered = self.buffered + bytes;
        if self.buffered >= self.capacity {
            let committed = self.buffered;
            self.flushed = self.flushed + committed;
            self.buffered = 0;
            committed
        } else {
            0
        }
    }

    /// The number of bytes held in the buffer.
    pub fn used(&self) -> (n: u64)
        ensures
            n == self.buffered,
    {
        self.buffered
    }
}

/// One write of `bytes` to buffer `b`: the buffer afterwards and the bytes
/// committed.
pub open spec fn write_step(b: WriteBuffer, bytes: u64) -> (WriteBuffer, int) {
    if b.buffered + bytes >= b.capacity {
        (WriteBuffer { buffered: 0, capacity: b.capacity, flushed: (b.flushed + b.buffered + bytes) as u64 }, b.buffered + bytes)
    } else {
        (WriteBuffer { buffered: (b.buffered + bytes) as u64, ..b }, 0)
    }
}

/// The writes `xs`, in order, to buffer `b`: the buffer afterwards and what
/// each write committed.
pub open spec fn run_writes(b: WriteBuffer, xs: Seq<u64>) -> (WriteBuffer, Seq<int>)
    decreases xs.len(),
{
    if xs.len() == 0 {
        (b, Seq::empty())
    } else {
        let prev = run_writes(b, xs.drop_last());
        let step = write_step(prev.0, xs.last());
        (step.0, prev.1.push(step.1))
    }
}

/// Whether each of the writes `xs`, in order, stays within `u64`.
pub open spec fn writes_fit(b: WriteBuffer, xs: Seq<u64>) -> bool
    decreases xs.len(),
{
    if xs.len() == 0 {
        true
    } else {
        writes_fit(b, xs.drop_last()) && run_writes(b, xs.drop_last()).0.can_write(xs.last())
    }
}

/// The sum of some byte counts.
pub open spec fn sum_bytes(xs: Seq<u64>) -> int
    decreases xs.len(),
{
    if xs.len() == 0 { 0 } else { sum_bytes(xs.drop_last()) + xs.last() }
}

/// The sum of some numbers.
pub open spec fn sum_ints(rs: Seq<int>) -> int
    decreases rs.len(),
{
    if rs.len() == 0 { 0 } else { sum_ints(rs.drop_last()) + rs.last() }
}

/// Over any sequence of writes a buffer keeps its capacity, loses no byte
/// (what is buffered plus what was committed grows by exactly what was
/// written), commits exactly what its writes report, and afterwards is
/// empty or below its capacity.
pub proof fn lemma_writes_conserve(b: WriteBuffer, xs: Seq<u64>)
    requires
        writes_fit(b, xs),
    ensures
        run_writes(b, xs).0.capacity == b.capacity,
        run_writes(b, xs).0.buffered + run_writes(b, xs).0.flushed == b.buffered + b.flushed + sum_bytes(xs),
        sum_ints(run_writes(b, xs).1) == run_writes(b, xs).0.flushed - b.flushed,
        run_writes(b, xs).1.len() == xs.len(),
        xs.len() > 0 ==> (run_writes(b, xs).0.buffered == 0 || run_writes(b, xs).0.buffered < b.capacity),
    decreases xs.len(),
{
    if xs.len() > 0 {
        lemma_writes_conserve(b, xs.drop_last());
        let prev = run_writes(b, xs.drop_last());
        assert(run_writes(b, xs).1.drop_last() == prev.1);
    }
}

/// A new buffer of capacity `c` after the writes `xs`: what is buffered
/// plus what was committed is all that was written, the committed bytes are
/// what the writes reported, the buffer is below its capacity (empty when
/// the capacity is 0), and the bytes in use are those written but not yet
/// committed.
pub proof fn lemma_fresh_buffer_writes(c: u64, xs: Seq<u64>)
    requires
        writes_fit(fresh_buffer(c), xs),
    ensures
        run_writes(fresh_buffer(c), xs).0.capacity == c,
        run_writes(fresh_buffer(c), xs).0.buffered + run_writes(fresh_buffer(c), xs).0.flushed == sum_bytes(xs),
        sum_ints(run_writes(fresh_buffer(c), xs).1) == run_writes(fresh_buffer(c), xs).0.flushed,
        c > 0 ==> run_writes(fresh_buffer(c), xs).0.buffered < c,
        c == 0 ==> run_writes(fresh_buffer(c), xs).0.buffered == 0,
        run_writes(fresh_buffer(c), xs).0.buffered == sum_bytes(xs) - sum_ints(run_writes(fresh_buffer(c), xs).1),
{
    lemma_writes_conserve(fresh_buffer(c), xs);
}

/// A torrent as it is first recorded: nothing transferred, no peers yet,
/// downloading with the rarest-first strategy, no trackers.
pub open spec fn new_record(
    id: Seq<char>,
    added_at: i64,
    info_hash: Seq<char>,
    name: Seq<char>,
    size: u64,
    files: Seq<TorrentFileView>,
    download_path: Seq<char>,
    label: Option<Seq<char>>,
) -> TorrentInfoView {
    TorrentInfoView {
        id,
        name,
        info_hash,
        size,
        downloaded: 0,
        uploaded: 0,
        progress: Progress::none_spec(),
        status: TorrentStatus::Downloading,
        speed_down: 0,
        speed_up: 0,
        peers: 0,
        seeds: 0,
        eta_secs: None,
        download_path,
        label,
        added_at,
        files,
        piece_strategy: PieceStrategy::RarestFirst,
        superseeding: false,
        metadata_ready: false,
        trackers: Seq::empty(),
    }
}

/// What the random-UUID generator hands out; nothing is claimed of its
/// value but its length.
///
/// `Uuid::new_v4` of the `uuid` crate, written with `to_string`: claimed is
/// only that the result has the 36 characters of the hyphenated form.
#[verifier::external_body]
fn new_torrent_id() -> (id: String)
    ensures
        id@.len() == 36,
{
    uuid::Uuid::new_v4().to_string()
}

/// `Utc::now().timestamp()` of the `chrono` crate: the current Unix time
/// in seconds. Nothing is claimed of the value.
#[verifier::external_body]
fn now_timestamp() -> i64 {
    chrono::Utc::now().timestamp()
}

/// The seeds reported for a torrent that `peer_count` peers announce: all
/// but a third of them.
pub open spec fn seeds_for(peer_count: u32) -> u32 {
    (peer_count - peer_count / 3) as u32
}

/// The record of a torrent added from a magnet link, under `id` and
/// stamped `added_at`: it is being checked and carries the link's trackers.
pub open spec fn magnet_record(
    id: Seq<char>,
    added_at: i64,
    magnet: Seq<char>,
    download_path: Seq<char>,
    label: Option<Seq<char>>,
) -> TorrentInfoView {
    let f = magnet_fields(magnet);
    TorrentInfoView {
        status: TorrentStatus::Checking,
        trackers: f.trackers,
        ..new_record(id, added_at, f.info_hash, f.name, 0, Seq::empty(), download_path, label)
    }
}

/// The record of a torrent added from the `.torrent` file `data`, decoded
/// as `torrent`, under `id` and stamped `added_at`: its metadata is ready
/// and it carries the file's trackers.
pub open spec fn file_record(
    id: Seq<char>,
    added_at: i64,
    data: Seq<u8>,
    torrent: BencodeTorrent,
    download_path: Seq<char>,
    label: Option<Seq<char>>,
) -> TorrentInfoView {
    TorrentInfoView {
        trackers: torrent_trackers(torrent),
        metadata_ready: true,
        ..new_record(
            id,
            added_at,
            info_hash_of(data),
            torrent_name(torrent),
            torrent_size(torrent) as u64,
            torrent_files(torrent),
            download_path,
            label,
        )
    }
}

/// An empty write buffer of capacity `cap`.
pub open spec fn fresh_buffer(cap: u64) -> WriteBuffer {
    WriteBuffer { buffered: 0, capacity: cap, flushed: 0 }
}

/// A torrent once the announce after adding its magnet link answered with
/// `peer_count` peers.
pub open spec fn after_magnet_announce(t: TorrentInfoView, peer_count: u32) -> TorrentInfoView {
    TorrentInfoView {
        peers: peer_count,
        seeds: seeds_for(peer_count),
        metadata_ready: true,
        status: TorrentStatus::Downloading,
        ..t
    }
}

/// A torrent once the announce after adding its `.torrent` file answered
/// with `peer_count` peers.
pub open spec fn after_file_announce(t: TorrentInfoView, peer_count: u32) -> TorrentInfoView {
    TorrentInfoView { peers: peer_count, seeds: seeds_for(peer_count), ..t }
}

/// Whether `ev` reports torrent `t`, just announced, with `peer_count`
/// peers and nothing transferred.
pub open spec fn is_announce_event(ev: Option<TorrentEvent>, t: TorrentInfoView, peer_count: u32) -> bool {
    match ev {
        Some(TorrentEvent::TorrentProgress { id, downloaded, total, speed_down, speed_up, peers, eta_secs, progress }) => {
            &&& id@ == t.id
            &&& downloaded == 0
            &&& total == t.size
            &&& speed_down == 0
            &&& speed_up == 0
            &&& peers == peer_count
            &&& eta_secs is None
            &&& progress == Progress::none_spec()
        },
        _ => false,
    }
}

/// A paused torrent: status `Paused`, speeds zero.
pub open spec fn paused(t: TorrentInfoView) -> TorrentInfoView {
    TorrentInfoView { status: TorrentStatus::Paused, speed_down: 0, speed_up: 0, ..t }
}

/// A resumed torrent: seeding when complete, else downloading.
pub open spec fn resumed(t: TorrentInfoView) -> TorrentInfoView {
    TorrentInfoView {
        status: if t.progress.is_full() { TorrentStatus::Seeding } else { TorrentStatus::Downloading },
        ..t
    }
}

/// A torrent with the per-torrent settings of `cfg` applied.
pub open spec fn configured(t: TorrentInfoView, cfg: TorrentConfig) -> TorrentInfoView {
    TorrentInfoView {
        piece_strategy: match cfg.piece_strategy {
            Some(s) => s,
            None => t.piece_strategy,
        },
        superseeding: match cfg.superseeding {
            Some(s) => s,
            None => t.superseeding,
        },
        ..t
    }
}

/// A torrent with file `idx`, if it has one, set to priority `p`.
pub open spec fn with_file_priority(t: TorrentInfoView, idx: int, p: FilePriority) -> TorrentInfoView {
    if 0 <= idx < t.files.len() {
        TorrentInfoView { files: t.files.update(idx, TorrentFileView { priority: p, ..t.files[idx] }), ..t }
    } else {
        t
    }
}

/// `m` with the torrent under `id`, if any, replaced by `f` of it.
pub open spec fn update_at(
    m: Map<Seq<char>, TorrentInfoView>,
    id: Seq<char>,
    f: spec_fn(TorrentInfoView) -> TorrentInfoView,
) -> Map<Seq<char>, TorrentInfoView> {
    if m.contains_key(id) {
        m.insert(id, f(m[id]))
    } else {
        m
    }
}

/// The engine session.
pub struct EngineSession {
    torrents: StrMap<TorrentInfo>,
    config: EngineConfig,
    write_buffers: StrMap<WriteBuffer>,
    dht_nodes: u32,
    pex_peers: u32,
    lsd_peers: u32,
}

impl EngineSession {
    /// Every torrent is stored under its own id; ids and buffer keys are
    /// distinct.
    #[verifier::type_invariant]
    spec fn inv(self) -> bool {
        &&& self.torrents.wf()
        &&& self.write_buffers.wf()
        &&& forall|k: Seq<char>| #[trigger] self.torrents@.contains_key(k) ==> self.torrents@[k].id == k
        &&& forall|k: Seq<char>| #[trigger] self.write_buffers@.contains_key(k) ==> self.torrents@.contains_key(k)
            && self.write_buffers@[k].capacity == self.config.write_buffer_bytes
    }

    /// Every write buffer belongs to a torrent of the session and has the
    /// configured capacity.
    pub open spec fn buffers_follow_torrents(self) -> bool {
        forall|k: Seq<char>| #[trigger] self.buffers().contains_key(k) ==> self.torrents().contains_key(k)
            && self.buffers()[k].capacity == self.config().write_buffer_bytes
    }

    /// The torrents, by id.
    pub closed spec fn torrents(self) -> Map<Seq<char>, TorrentInfoView> {
        self.torrents@
    }

    /// The torrents, in the order the session keeps them.
    pub closed spec fn torrent_list(self) -> Seq<TorrentInfoView> {
        self.torrents.values()
    }

    /// The engine configuration.
    pub closed spec fn config(self) -> EngineConfig {
        self.config
    }

    /// The write buffers, by torrent id.
    pub closed spec fn buffers(self) -> Map<Seq<char>, WriteBuffer> {
        self.write_buffers@
    }

    /// The write buffers, in the order the session keeps them.
    pub closed spec fn buffer_list(self) -> Seq<WriteBuffer> {
        self.write_buffers.values()
    }

    /// The DHT node, PEX peer and LSD peer counts.
    pub closed spec fn peer_sources(self) -> (u32, u32, u32) {
        (self.dht_nodes, self.pex_peers, self.lsd_peers)
    }

    /// A session with no torrents, the default configuration and no peers
    /// discovered yet.
    pub fn new(download_path: &str) -> (s: EngineSession)
        ensures
            s.buffers_follow_torrents(),
            s.torrents() == Map::<Seq<char>, TorrentInfoView>::empty(),
            s.buffers() == Map::<Seq<char>, WriteBuffer>::empty(),
            s.config() == EngineConfig::default_spec(),
            s.peer_sources() == (0u32, 0u32, 0u32),
            s.torrent_list() == Seq::<TorrentInfoView>::empty(),
            s.buffer_list() == Seq::<WriteBuffer>::empty(),
    {
        let torrents = StrMap::new();
        let write_buffers = StrMap::new();
        assert(torrents.values() =~= Seq::<TorrentInfoView>::empty());
        assert(write_buffers.values() =~= Seq::<WriteBuffer>::empty());
        EngineSession {
            torrents,
            config: EngineConfig::default(),
            write_buffers,
            dht_nodes: 0,
            pex_peers: 0,
            lsd_peers: 0,
        }
    }

    /// A fresh record for a torrent, under a new random id and stamped with
    /// the current time.
    fn new_torrent(
        &self,
        info_hash: String,
        name: String,
        size: u64,
        files: Vec<TorrentFile>,
        download_path: &str,
        label: Option<String>,
    ) -> (t: TorrentInfo)
        ensures
            t@ == new_record(t.id@, t.added_at, info_hash@, name@, size, file_views(files@), download_path@, opt_view(label)),
            t.id@.len() == 36,
    {
        let t = TorrentInfo {
            id: new_torrent_id(),
            name,
            info_hash,
            size,
            downloaded: 0,
            uploaded: 0,
            progress: Progress::none(),
            status: TorrentStatus::Downloading,
            speed_down: 0,
            speed_up: 0,
            peers: 0,
            seeds: 0,
            eta_secs: None,
            download_path: download_path.to_owned(),
            label,
            added_at: now_timestamp(),
            files,
            piece_strategy: PieceStrategy::RarestFirst,
            superseeding: false,
            metadata_ready: false,
            trackers: Vec::new(),
        };
        assert(string_views(t.trackers@) =~= Seq::<Seq<char>>::empty());
        t
    }

    proof fn lemma_torrent_at(self, i: int)
        requires
            self.inv(),
            0 <= i < self.torrents.keys().len(),
        ensures
            self.torrents.values().len() == self.torrents.keys().len(),
            self.torrents@.contains_key(self.torrents.keys()[i]),
            self.torrents@[self.torrents.keys()[i]] == self.torrents.values()[i],
            self.torrents.values()[i].id == self.torrents.keys()[i],
    {
        self.torrents.lemma_entries();
        assert(self.torrents@.contains_key(self.torrents.keys()[i]));
    }

    /// Replaces the torrent at position `i` by `t`, which keeps its id.
    fn set_torrent_at(&mut self, i: usize, t: TorrentInfo)
        requires
            i < old(self).torrents.keys().len(),
            t.id@ == old(self).torrents.keys()[i as int],
        ensures
            final(self).torrents@ == old(self).torrents@.insert(t.id@, t@),
            final(self).torrents.keys() == old(self).torrents.keys(),
            final(self).torrents.values() == old(self).torrents.values().update(i as int, t@),
            final(self).config == old(self).config,
            final(self).write_buffers == old(self).write_buffers,
            final(self).peer_sources() == old(self).peer_sources(),
    {
        proof {
            use_type_invariant(&*self);
        }
        let mut bs = StrMap::new();
        std::mem::swap(&mut bs, &mut self.write_buffers);
        let mut ts = StrMap::new();
        std::mem::swap(&mut ts, &mut self.torrents);
        let ghost tv = t@;
        ts.set_value(i, t);
        proof {
            assert forall|k: Seq<char>| #[trigger] ts@.contains_key(k) implies ts@[k].id == k by {
                if k != tv.id {
                    assert(old(self).torrents@.contains_key(k));
                }
            }
        }
        self.torrents = ts;
        self.write_buffers = bs;
    }

    /// Stores `t` under its own id.
    fn insert_torrent(&mut self, t: TorrentInfo)
        ensures
            final(self).torrents@ == old(self).torrents@.insert(t.id@, t@),
            final(self).config == old(self).config,
            final(self).write_buffers == old(self).write_buffers,
            final(self).peer_sources() == old(self).peer_sources(),
    {
        proof {
            use_type_invariant(&*self);
        }
        let mut bs = StrMap::new();
        std::mem::swap(&mut bs, &mut self.write_buffers);
        let mut ts = StrMap::new();
        std::mem::swap(&mut ts, &mut self.torrents);
        let ghost tv = t@;
        let key = t.id.clone();
        ts.insert(key, t);
        proof {
            assert forall|k: Seq<char>| #[trigger] ts@.contains_key(k) implies ts@[k].id == k by {
                if k != tv.id {
                    assert(old(self).torrents@.contains_key(k));
                }
            }
        }
        self.torrents = ts;
        self.write_buffers = bs;
    }

    /// Forgets the torrent and the write buffer stored under `id`.
    fn remove_entries(&mut self, id: &str)
        ensures
            final(self).torrents@ == old(self).torrents@.remove(id@),
            final(self).write_buffers@ == old(self).write_buffers@.remove(id@),
            final(self).config == old(self).config,
            final(self).peer_sources() == old(self).peer_sources(),
    {
        proof {
            use_type_invariant(&*self);
        }
        let mut bs = StrMap::new();
        std::mem::swap(&mut bs, &mut self.write_buffers);
        bs.remove(id);
        let mut ts = StrMap::new();
        std::mem::swap(&mut ts, &mut self.torrents);
        ts.remove(id);
        proof {
            assert forall|k: Seq<char>| #[trigger] ts@.contains_key(k) implies ts@[k].id == k by {
                assert(old(self).torrents@.contains_key(k));
            }
            assert forall|k: Seq<char>| #[trigger] bs@.contains_key(k) implies ts@.contains_key(k)
                && bs@[k].capacity == self.config.write_buffer_bytes by {
                assert(old(self).write_buffers@.contains_key(k));
            }
        }
        self.torrents = ts;
        self.write_buffers = bs;
    }

    /// Stores `b` as the write buffer of torrent `id`.
    fn insert_buffer(&mut self, id: String, b: WriteBuffer)
        requires
            old(self).torrents@.contains_key(id@),
            b.capacity == old(self).config.write_buffer_bytes,
        ensures
            final(self).write_buffers@ == old(self).write_buffers@.insert(id@, b),
            final(self).torrents == old(self).torrents,
            final(self).config == old(self).config,
            final(self).peer_sources() == old(self).peer_sources(),
    {
        proof {
            use_type_invariant(&*self);
        }
        let mut bs = StrMap::new();
        std::mem::swap(&mut bs, &mut self.write_buffers);
        let ghost kid = id@;
        bs.insert(id, b);
        proof {
            assert forall|k: Seq<char>| #[trigger] bs@.contains_key(k) implies self.torrents@.contains_key(k)
                && bs@[k].capacity == self.config.write_buffer_bytes by {
                if k != kid {
                    assert(old(self).write_buffers@.contains_key(k));
                }
            }
        }
        self.write_buffers = bs;
    }

    /// Stores a torrent under its id.
    fn store(&mut self, info: TorrentInfo)
        ensures
            final(self).torrents() == old(self).torrents().insert(info.id@, info@),
            final(self).config() == old(self).config(),
            final(self).buffers() == old(self).buffers(),
            final(self).peer_sources() == old(self).peer_sources(),
    {
        proof {
            use_type_invariant(&*self);
        }
        self.insert_torrent(info);
    }

    /// Adds a torrent from a magnet link. It starts in the `Checking` state
    /// with the link's trackers while its metadata is fetched.
    pub fn add_magnet(&mut self, magnet: &str, download_path: &str, label: Option<String>) -> (r: Result<TorrentInfo, MagnetError>)
        ensures
            r matches Ok(info) ==> opt_view(info.label) == opt_view(label) && info.download_path@ == download_path@,
            final(self).buffers_follow_torrents(),
            final(self).config() == old(self).config(),
            final(self).buffers() == old(self).buffers(),
            final(self).peer_sources() == old(self).peer_sources(),
            match r {
                Ok(info) => {
                    &&& magnet_fields(magnet@).info_hash.len() > 0
                    &&& info.id@.len() == 36
                    &&& info@ == magnet_record(info.id@, info.added_at, magnet@, download_path@, opt_view(label))
                    &&& final(self).torrents() == old(self).torrents().insert(info.id@, info@)
                },
                Err(e) => {
                    &&& e == MagnetError::MissingInfoHash
                    &&& magnet_fields(magnet@).info_hash.len() == 0
                    &&& final(self).torrents() == old(self).torrents()
                },
            },
            r is Err <==> !names_topic(magnet@),
    {
        proof {
            use_type_invariant(&*self);
        }
        let (info_hash, name, trackers) = match parse_magnet(magnet) {
            Ok(parts) => parts,
            Err(e) => return Err(e),
        };
        let no_files: Vec<TorrentFile> = Vec::new();
        assert(file_views(no_files@) =~= Seq::<TorrentFileView>::empty());
        let mut info = self.new_torrent(info_hash, name, 0, no_files, download_path, label);
        info.trackers = trackers;
        info.status = TorrentStatus::Checking;
        self.store(info.clone());
        Ok(info)
    }

    /// Records the result of the tracker announce that follows adding a
    /// magnet link: the torrent, if still there, now has `peer_count` peers,
    /// its metadata and is downloading. The progress event to send is
    /// returned.
    pub fn magnet_announced(&mut self, id: &str, peer_count: u32) -> (ev: Option<TorrentEvent>)
        ensures
            final(self).buffers_follow_torrents(),
            final(self).config() == old(self).config(),
            final(self).buffers() == old(self).buffers(),
            final(self).peer_sources() == old(self).peer_sources(),
            old(self).torrents().contains_key(id@) ==> {
                &&& final(self).torrents() == old(self).torrents().insert(
                    id@,
                    after_magnet_announce(old(self).torrents()[id@], peer_count),
                )
                &&& is_announce_event(ev, old(self).torrents()[id@], peer_count)
            },
            !old(self).torrents().contains_key(id@) ==> final(self).torrents() == old(self).torrents() && ev is None,
    {
        proof {
            use_type_invariant(&*self);
            self.torrents.lemma_entries();
        }
        match self.torrents.find(id) {
            Some(i) => {
                proof {
                    self.lemma_torrent_at(i as int);
                }
                let mut t = self.torrents.value_at(i).clone();
                t.peers = peer_count;
                t.seeds = peer_count - peer_count / 3;
                t.metadata_ready = true;
                t.status = TorrentStatus::Downloading;
                let ev = TorrentEvent::TorrentProgress {
                    id: t.id.clone(),
                    downloaded: 0,
                    total: t.size,
                    speed_down: 0,
                    speed_up: 0,
                    peers: t.peers,
                    eta_secs: None,
                    progress: Progress::none(),
                };
                self.set_torrent_at(i, t);
                Some(ev)
            },
            None => None,
        }
    }

    /// Adds a torrent from a `.torrent` file whose bencode `torrent` was
    /// decoded from `data`. Its metadata is known at once, and it gets an
    /// empty write buffer of the configured capacity.
    pub fn add_torrent_file(&mut self, data: Vec<u8>, torrent: &BencodeTorrent, download_path: &str, label: Option<String>) -> (info: TorrentInfo)
        requires
            info_hash_input_ok(data@),
            size_fits(*torrent),
        ensures
            opt_view(info.label) == opt_view(label),
            info.download_path@ == download_path@,
            final(self).torrents()[info.id@].label == opt_view(label),
            final(self).buffers_follow_torrents(),
            info.id@.len() == 36,
            info.size == torrent_size(*torrent),
            info@ == file_record(info.id@, info.added_at, data@, *torrent, download_path@, opt_view(label)),
            final(self).torrents() == old(self).torrents().insert(info.id@, info@),
            final(self).buffers() == old(self).buffers().insert(info.id@, fresh_buffer(old(self).config().write_buffer_bytes)),
            final(self).config() == old(self).config(),
            final(self).peer_sources() == old(self).peer_sources(),
    {
        let (info_hash, name, size, files, trackers) = parse_torrent_file(data.as_slice(), torrent);
        let mut info = self.new_torrent(info_hash, name, size, files, download_path, label);
        info.trackers = trackers;
        info.metadata_ready = true;
        let cap = self.config.write_buffer_bytes;
        proof {
            use_type_invariant(&*self);
        }
        self.store(info.clone());
        self.insert_buffer(info.id.clone(), WriteBuffer::new(cap));
        info
    }

    /// Records the result of the tracker announce that follows adding a
    /// `.torrent` file: when some peers answered and the torrent is still
    /// there, it now has `peer_count` peers and the progress event to send
    /// is returned.
    pub fn file_announced(&mut self, id: &str, peer_count: u32) -> (ev: Option<TorrentEvent>)
        ensures
            final(self).buffers_follow_torrents(),
            final(self).config() == old(self).config(),
            final(self).buffers() == old(self).buffers(),
            final(self).peer_sources() == old(self).peer_sources(),
            old(self).torrents().contains_key(id@) && peer_count > 0 ==> {
                &&& final(self).torrents() == old(self).torrents().insert(
                    id@,
                    after_file_announce(old(self).torrents()[id@], peer_count),
                )
                &&& is_announce_event(ev, old(self).torrents()[id@], peer_count)
            },
            !(old(self).torrents().contains_key(id@) && peer_count > 0) ==> final(self).torrents() == old(self).torrents() && ev is None,
    {
        proof {
            use_type_invariant(&*self);
            self.torrents.lemma_entries();
        }
        match self.torrents.find(id) {
            Some(i) => {
                proof {
                    self.lemma_torrent_at(i as int);
                }
                if peer_count > 0 {
                    let mut t = self.torrents.value_at(i).clone();
                    t.peers = peer_count;
                    t.seeds = peer_count - peer_count / 3;
                    let ev = TorrentEvent::TorrentProgress {
                        id: t.id.clone(),
                        downloaded: 0,
                        total: t.size,
                        speed_down: 0,
                        speed_up: 0,
                        peers: t.peers,
                        eta_secs: None,
                        progress: Progress::none(),
                    };
                    self.set_torrent_at(i, t);
                    Some(ev)
                } else {
                    None
                }
            },
            None => None,
        }
    }

    /// Forgets a torrent and its write buffer.
    pub fn remove_torrent(&mut self, id: &str)
        ensures
            final(self).buffers_follow_torrents(),
            final(self).torrents() == old(self).torrents().remove(id@),
            final(self).buffers() == old(self).buffers().remove(id@),
            final(self).config() == old(self).config(),
            final(self).peer_sources() == old(self).peer_sources(),
    {
        proof {
            use_type_invariant(&*self);
        }
        self.remove_entries(id);
    }

    /// Pauses a torrent: its status becomes `Paused` and its speeds drop to
    /// zero. Unknown ids change nothing.
    pub fn pause_torrent(&mut self, id: &str)
        ensures
            old(self).torrents().contains_key(id@) ==> final(self).torrents()[id@].status == TorrentStatus::Paused
                && final(self).torrents()[id@].speed_down == 0 && final(self).torrents()[id@].speed_up == 0,
            final(self).buffers_follow_torrents(),
            final(self).torrents() == update_at(old(self).torrents(), id@, |t: TorrentInfoView| paused(t)),
            final(self).config() == old(self).config(),
            final(self).buffers() == old(self).buffers(),
            final(self).peer_sources() == old(self).peer_sources(),
    {
        proof {
            use_type_invariant(&*self);
            self.torrents.lemma_entries();
        }
        match self.torrents.find(id) {
            Some(i) => {
                proof {
                    self.lemma_torrent_at(i as int);
                }
                let mut t = self.torrents.value_at(i).clone();
                t.status = TorrentStatus::Paused;
                t.speed_down = 0;
                t.speed_up = 0;
                self.set_torrent_at(i, t);
            },
            None => {},
        }
    }

    /// Resumes a torrent: it seeds when complete and downloads otherwise.
    /// Unknown ids change nothing.
    pub fn resume_torrent(&mut self, id: &str)
        ensures
            final(self).buffers_follow_torrents(),
            final(self).torrents() == update_at(old(self).torrents(), id@, |t: TorrentInfoView| resumed(t)),
            final(self).config() == old(self).config(),
            final(self).buffers() == old(self).buffers(),
            final(self).peer_sources() == old(self).peer_sources(),
    {
        proof {
            use_type_invariant(&*self);
            self.torrents.lemma_entries();
        }
        match self.torrents.find(id) {
            Some(i) => {
                proof {
                    self.lemma_torrent_at(i as int);
                }
                let mut t = self.torrents.value_at(i).clone();
                t.status = if t.progress.full() {
                    TorrentStatus::Seeding
                } else {
                    TorrentStatus::Downloading
                };
                self.set_torrent_at(i, t);
            },
            None => {},
        }
    }

    /// Sets the priority of file `file_index` of a torrent. Returns whether
    /// the torrent has such a file; when it has not, nothing changes.
    pub fn set_file_priority(&mut self, id: &str, file_index: usize, priority: FilePriority) -> (found: bool)
        ensures
            final(self).buffers_follow_torrents(),
            found == (old(self).torrents().contains_key(id@) && file_index < old(self).torrents()[id@].files.len()),
            final(self).torrents() == update_at(
                old(self).torrents(),
                id@,
                |t: TorrentInfoView| with_file_priority(t, file_index as int, priority),
            ),
            final(self).config() == old(self).config(),
            final(self).buffers() == old(self).buffers(),
            final(self).peer_sources() == old(self).peer_sources(),
    {
        proof {
            use_type_invariant(&*self);
            self.torrents.lemma_entries();
        }
        match self.torrents.find(id) {
            Some(i) => {
                proof {
                    self.lemma_torrent_at(i as int);
                }
                let mut t = self.torrents.value_at(i).clone();
                if file_index < t.files.len() {
                    let ghost before = t@;
                    let mut f = t.files[file_index].clone();
                    f.priority = priority;
                    let ghost fv = f@;
                    t.files.set(file_index, f);
                    assert(file_views(t.files@) =~= before.files.update(file_index as int, fv));
                    assert(t@ == with_file_priority(before, file_index as int, priority));
                    self.set_torrent_at(i, t);
                    true
                } else {
                    self.set_torrent_at(i, t);
                    false
                }
            },
            None => false,
        }
    }

    /// Applies per-torrent settings; settings left `None` keep their value.
    /// Unknown ids change nothing.
    pub fn set_torrent_config(&mut self, id: &str, cfg: TorrentConfig)
        ensures
            old(self).torrents().contains_key(id@) ==> final(self).torrents()[id@].superseeding == match cfg.superseeding {
                Some(b) => b,
                None => old(self).torrents()[id@].superseeding,
            } && final(self).torrents()[id@].piece_strategy == match cfg.piece_strategy {
                Some(p) => p,
                None => old(self).torrents()[id@].piece_strategy,
            },
            final(self).buffers_follow_torrents(),
            final(self).torrents() == update_at(old(self).torrents(), id@, |t: TorrentInfoView| configured(t, cfg)),
            final(self).config() == old(self).config(),
            final(self).buffers() == old(self).buffers(),
            final(self).peer_sources() == old(self).peer_sources(),
    {
        proof {
            use_type_invariant(&*self);
            self.torrents.lemma_entries();
        }
        match self.torrents.find(id) {
            Some(i) => {
                proof {
                    self.lemma_torrent_at(i as int);
                }
                let mut t = self.torrents.value_at(i).clone();
                match cfg.piece_strategy {
                    Some(s) => {
                        t.piece_strategy = s;
                    },
                    None => {},
                }
                match cfg.superseeding {
                    Some(s) => {
                        t.superseeding = s;
                    },
                    None => {},
                }
                self.set_torrent_at(i, t);
            },
            None => {},
        }
    }

    /// The torrent with the given id, if any.
    pub fn get_torrent(&self, id: &str) -> (r: Option<TorrentInfo>)
        ensures
            match r {
                Some(t) => self.torrents().contains_key(id@) && t@ == self.torrents()[id@] && t.id@ == id@,
                None => !self.torrents().contains_key(id@),
            },
    {
        proof {
            use_type_invariant(self);
        }
        match self.torrents.get(id) {
            Some(t) => Some(t.clone()),
            None => None,
        }
    }

    /// All torrents, each once.
    pub fn list_torrents(&self) -> (r: Vec<TorrentInfo>)
        ensures
            r@.len() == self.torrent_list().len(),
            forall|i: int| 0 <= i < r@.len() ==> #[trigger] r@[i]@ == self.torrent_list()[i],
            forall|i: int| 0 <= i < r@.len() ==> self.torrents().contains_key(#[trigger] r@[i].id@)
                && self.torrents()[r@[i].id@] == r@[i]@,
            forall|i: int, j: int| 0 <= i < j < r@.len() ==> #[trigger] r@[i].id@ != #[trigger] r@[j].id@,
            forall|k: Seq<char>| #[trigger] self.torrents().contains_key(k) ==> exists|i: int| 0 <= i < r@.len() && r@[i].id@ == k,
    {
        proof {
            use_type_invariant(self);
            self.torrents.lemma_entries();
        }
        let mut out: Vec<TorrentInfo> = Vec::new();
        let mut i: usize = 0;
        while i < self.torrents.len()
            invariant
                i <= self.torrents.keys().len(),
                self.torrents.wf(),
                self.torrents.keys().len() == self.torrents.values().len(),
                out@.len() == i,
                forall|j: int| 0 <= j < i ==> #[trigger] out@[j]@ == self.torrents.values()[j],
            decreases self.torrents.keys().len() - i,
        {
            let t = self.torrents.value_at(i).clone();
            out.push(t);
            i = i + 1;
        }
        proof {
            assert forall|j: int| 0 <= j < out@.len() implies self.torrents().contains_key(#[trigger] out@[j].id@)
                && self.torrents()[out@[j].id@] == out@[j]@ by {
                self.lemma_torrent_at(j);
                assert(out@[j]@ == self.torrents.values()[j]);
            }
            assert forall|a: int, b: int| 0 <= a < b < out@.len() implies #[trigger] out@[a].id@ != #[trigger] out@[b].id@ by {
                self.lemma_torrent_at(a);
                self.lemma_torrent_at(b);
            }
            assert forall|k: Seq<char>| #[trigger] self.torrents().contains_key(k) implies exists|i: int| 0 <= i < out@.len() && out@[i].id@ == k by {
                let j = choose|j: int| 0 <= j < self.torrents.keys().len() && self.torrents.keys()[j] == k;
                self.lemma_torrent_at(j);
                assert(out@[j].id@ == k);
            }
        }
        out
    }
}

/// The write buffers of `m`, all with capacity `cap`.
pub open spec fn with_capacity(m: Map<Seq<char>, WriteBuffer>, cap: u64) -> Map<Seq<char>, WriteBuffer> {
    Map::new(|k: Seq<char>| m.contains_key(k), |k: Seq<char>| WriteBuffer { capacity: cap, ..m[k] })
}

impl EngineSession {
    /// Applies a new engine configuration. When the write buffer capacity
    /// changes, every write buffer takes the new capacity.
    pub fn apply_config(&mut self, new_cfg: EngineConfig)
        ensures
            final(self).buffers_follow_torrents(),
            final(self).config() == new_cfg,
            final(self).buffers() == (if old(self).config().write_buffer_bytes != new_cfg.write_buffer_bytes {
                with_capacity(old(self).buffers(), new_cfg.write_buffer_bytes)
            } else {
                old(self).buffers()
            }),
            final(self).torrents() == old(self).torrents(),
            final(self).peer_sources() == old(self).peer_sources(),
    {
        proof {
            use_type_invariant(&*self);
        }
        let new_cap = new_cfg.write_buffer_bytes;
        let changed = self.config.write_buffer_bytes != new_cap;
        let ghost start = self.write_buffers@;
        let ghost t0 = self.torrents();
        assert(forall|k: Seq<char>| #[trigger] start.contains_key(k) ==> t0.contains_key(k)
            && start[k].capacity == old(self).config.write_buffer_bytes);
        let mut bs = StrMap::new();
        std::mem::swap(&mut bs, &mut self.write_buffers);
        self.config = new_cfg;
        if changed {
            let ghost keys = bs.keys();
            let ghost vals = bs.values();
            proof {
                bs.lemma_entries();
                assert forall|j: int| 0 <= j < keys.len() implies #[trigger] start[keys[j]] == vals[j] by {
                    assert(bs@.contains_key(bs.keys()[j]));
                }
            }
            let mut i: usize = 0;
            while i < bs.len()
                invariant
                    bs.wf(),
                    bs.keys() == keys,
                    keys.no_duplicates(),
                    keys.len() == vals.len(),
                    forall|j: int| 0 <= j < keys.len() ==> #[trigger] start[keys[j]] == vals[j],
                    forall|k: Seq<char>| #[trigger] start.contains_key(k) <==> keys.contains(k),
                    i <= keys.len(),
                    bs.values().len() == keys.len(),
                    forall|j: int| 0 <= j < i ==> #[trigger] bs.values()[j] == (WriteBuffer { capacity: new_cap, ..vals[j] }),
                    forall|j: int| i <= j < keys.len() ==> #[trigger] bs.values()[j] == vals[j],
                decreases keys.len() - i,
            {
                let mut b = *bs.value_at(i);
                b.capacity = new_cap;
                bs.set_value(i, b);
                i = i + 1;
            }
            proof {
                bs.lemma_entries();
                assert forall|k: Seq<char>| #[trigger] bs@.contains_key(k) implies
                    bs@[k] == with_capacity(start, new_cap)[k] by {
                    let j = choose|j: int| 0 <= j < keys.len() && keys[j] == k;
                    assert(bs@.contains_key(bs.keys()[j]));
                    assert(bs@[keys[j]] == bs.values()[j]);
                }
                assert(bs@ =~= with_capacity(start, new_cap));
            }
        }
        assert(forall|k: Seq<char>| #[trigger] bs@.contains_key(k) ==> self.torrents@.contains_key(k)
            && bs@[k].capacity == self.config.write_buffer_bytes);
        self.write_buffers = bs;
    }
}

/// How many peers the peer list shows for torrent `t`: as many as it has,
/// but no more than the connection pool allows per torrent, and at most 12.
pub open spec fn shown_peer_count(t: TorrentInfoView, cfg: EngineConfig) -> nat {
    let a: nat = if (t.peers as nat) < (cfg.max_connections_per_torrent as nat) {
        t.peers as nat
    } else {
        cfg.max_connections_per_torrent as nat
    };
    if a < 12 { a } else { 12 }
}

/// The client name shown for the `i`-th peer.
pub open spec fn client_name(i: nat) -> Seq<char> {
    let r = i % 5;
    if r == 0 {
        "qBittorrent/4.6"@
    } else if r == 1 {
        "Transmission/3.0"@
    } else if r == 2 {
        "libtorrent/2.0"@
    } else if r == 3 {
        "uTorrent/3.5"@
    } else {
        "Deluge/2.1"@
    }
}

/// The flags shown for every peer: uTP with DHT when those are enabled,
/// else plain TCP.
pub open spec fn peer_flags(cfg: EngineConfig) -> Seq<char> {
    if cfg.utp_enabled {
        "uT D"@ + (if cfg.dht_enabled { " DHT"@ } else { ""@ })
    } else {
        "TCP"@
    }
}

/// The address shown for the `i`-th peer.
pub open spec fn peer_ip(i: nat) -> Seq<char> {
    "10."@ + decimal(i / 256) + "."@ + decimal(i % 256) + "."@ + decimal((i * 7) % 256)
}

/// The `i`-th of the `count` peers shown for torrent `t`: each gets an
/// equal share of the torrent's speeds.
pub open spec fn peer_entry(t: TorrentInfoView, cfg: EngineConfig, count: nat, i: nat) -> PeerInfoView {
    PeerInfoView {
        ip: peer_ip(i),
        port: (6881 + (i * 13) % 10000) as u16,
        client: client_name(i),
        speed_down: (t.speed_down / ((count + 1) as u64)) as u64,
        speed_up: (t.speed_up / ((count + 1) as u64)) as u64,
        progress: Progress { done: i as u64, total: count as u64 },
        flags: peer_flags(cfg),
    }
}

/// A figure of a torrent that the session statistics add up.
#[derive(Clone, Copy, Debug, PartialEq, Eq, Structural)]
pub enum Figure {
    SpeedDown,
    SpeedUp,
    Downloaded,
    Uploaded,
}

/// The value of figure `f` for torrent `t`.
pub open spec fn figure_of(t: TorrentInfoView, f: Figure) -> u64 {
    match f {
        Figure::SpeedDown => t.speed_down,
        Figure::SpeedUp => t.speed_up,
        Figure::Downloaded => t.downloaded,
        Figure::Uploaded => t.uploaded,
    }
}

/// The sum of figure `f` over `ts`.
pub open spec fn sum_figure(ts: Seq<TorrentInfoView>, f: Figure) -> int
    decreases ts.len(),
{
    if ts.len() == 0 {
        0
    } else {
        sum_figure(ts.drop_last(), f) + figure_of(ts.last(), f)
    }
}

/// How many torrents of `ts` have status `st`.
pub open spec fn count_status(ts: Seq<TorrentInfoView>, st: TorrentStatus) -> nat
    decreases ts.len(),
{
    if ts.len() == 0 {
        0
    } else {
        count_status(ts.drop_last(), st) + if ts.last().status == st { 1nat } else { 0nat }
    }
}

/// The bytes held in the write buffers `bs`.
pub open spec fn sum_buffered(bs: Seq<WriteBuffer>) -> int
    decreases bs.len(),
{
    if bs.len() == 0 {
        0
    } else {
        sum_buffered(bs.drop_last()) + bs.last().buffered
    }
}

/// A speed as reported under a throttle of `cap` bytes per second (0 means
/// unlimited).
pub open spec fn throttled(raw: int, cap: u64) -> int {
    if cap > 0 && cap < raw { cap as int } else { raw }
}

/// Whether the totals of the statistics fit in `u64`.
pub open spec fn stats_fit(ts: Seq<TorrentInfoView>, bs: Seq<WriteBuffer>) -> bool {
    &&& sum_figure(ts, Figure::SpeedDown) <= u64::MAX
    &&& sum_figure(ts, Figure::SpeedUp) <= u64::MAX
    &&& sum_figure(ts, Figure::Downloaded) <= u64::MAX
    &&& sum_figure(ts, Figure::Uploaded) <= u64::MAX
    &&& sum_buffered(bs) <= u64::MAX
}

/// The statistics of a session with torrents `ts`, write buffers `bs`,
/// configuration `cfg` and discovery counts `sources`: the throttled total
/// speeds, the transfer totals, the torrents counted by status (the counts
/// wrap at `u32`), the discovery counts and the write buffer use.
pub open spec fn stats_of(
    ts: Seq<TorrentInfoView>,
    bs: Seq<WriteBuffer>,
    cfg: EngineConfig,
    sources: (u32, u32, u32),
) -> GlobalStats {
    GlobalStats {
        speed_down: throttled(sum_figure(ts, Figure::SpeedDown), cfg.max_download_bps) as u64,
        speed_up: throttled(sum_figure(ts, Figure::SpeedUp), cfg.max_upload_bps) as u64,
        total_downloaded: sum_figure(ts, Figure::Downloaded) as u64,
        total_uploaded: sum_figure(ts, Figure::Uploaded) as u64,
        active_torrents: count_status(ts, TorrentStatus::Downloading) as u32,
        paused_torrents: count_status(ts, TorrentStatus::Paused) as u32,
        seeding_torrents: count_status(ts, TorrentStatus::Seeding) as u32,
        dht_nodes: sources.0,
        pex_peers: sources.1,
        lsd_peers: sources.2,
        write_buffer_used: sum_buffered(bs) as u64,
        write_buffer_capacity: cfg.write_buffer_bytes,
    }
}

proof fn lemma_sum_figure_prefix(ts: Seq<TorrentInfoView>, f: Figure, k: int)
    requires
        0 <= k <= ts.len(),
    ensures
        0 <= sum_figure(ts.take(k), f) <= sum_figure(ts, f),
    decreases ts.len() - k,
{
    if k < ts.len() {
        lemma_sum_figure_prefix(ts, f, k + 1);
        assert(ts.take(k + 1).drop_last() == ts.take(k));
    } else {
        assert(ts.take(k) == ts);
    }
    lemma_sum_figure_nonneg(ts.take(k), f);
}

/// A sum of figures is never negative.
pub proof fn lemma_sum_figure_nonneg(ts: Seq<TorrentInfoView>, f: Figure)
    ensures
        0 <= sum_figure(ts, f),
    decreases ts.len(),
{
    if ts.len() > 0 {
        lemma_sum_figure_nonneg(ts.drop_last(), f);
    }
}

proof fn lemma_sum_buffered_prefix(bs: Seq<WriteBuffer>, k: int)
    requires
        0 <= k <= bs.len(),
    ensures
        0 <= sum_buffered(bs.take(k)) <= sum_buffered(bs),
    decreases bs.len() - k,
{
    if k < bs.len() {
        lemma_sum_buffered_prefix(bs, k + 1);
        assert(bs.take(k + 1).drop_last() == bs.take(k));
    } else {
        assert(bs.take(k) == bs);
    }
    lemma_sum_buffered_nonneg(bs.take(k));
}

/// The bytes held in write buffers are never negative.
pub proof fn lemma_sum_buffered_nonneg(bs: Seq<WriteBuffer>)
    ensures
        0 <= sum_buffered(bs),
    decreases bs.len(),
{
    if bs.len() > 0 {
        lemma_sum_buffered_nonneg(bs.drop_last());
    }
}

fn figure_value(t: &TorrentInfo, f: Figure) -> (v: u64)
    ensures
        v == figure_of(t@, f),
{
    match f {
        Figure::SpeedDown => t.speed_down,
        Figure::SpeedUp => t.speed_up,
        Figure::Downloaded => t.downloaded,
        Figure::Uploaded => t.uploaded,
    }
}

/// The discovery counts after one ramp-up step towards `target` nodes:
/// DHT reaches the target, PEX a third of it and LSD its two local peers,
/// each only when enabled.
pub open spec fn discovery_after(cfg: EngineConfig, sources: (u32, u32, u32), target: u32) -> (u32, u32, u32) {
    (
        if cfg.dht_enabled { target } else { sources.0 },
        if cfg.pex_enabled { (target / 3) as u32 } else { sources.1 },
        if cfg.lsd_enabled { 2u32 } else { sources.2 },
    )
}

/// The node counts the DHT bootstrap ramps up through, one step every few
/// seconds.
pub fn discovery_targets() -> (v: Vec<u32>)
    ensures
        v@ == seq![12u32, 48u32, 120u32, 256u32],
{
    let mut v: Vec<u32> = Vec::new();
    v.push(12);
    v.push(48);
    v.push(120);
    v.push(256);
    v
}

/// One torrent as stored in the database.
pub struct TorrentRow {
    pub id: String,
    pub name: String,
    pub info_hash: String,
    pub label: Option<String>,
    pub download_path: String,
    pub added_at: i64,
    pub status: String,
}

/// The record restored from a stored torrent: what the database keeps, its
/// status read from its name, everything else as for a new torrent.
pub open spec fn restored_record(row: TorrentRow) -> TorrentInfoView {
    TorrentInfoView {
        status: TorrentStatus::from_name(row.status@),
        ..new_record(row.id@, row.added_at, row.info_hash@, row.name@, 0, Seq::empty(), row.download_path@, opt_view(row.label))
    }
}

/// Whether `row` is what is stored for torrent `t`: its id, name, info
/// hash, label, folder, time added and the name of its status.
pub open spec fn saved_as(row: TorrentRow, t: TorrentInfoView) -> bool {
    &&& row.id@ == t.id
    &&& row.name@ == t.name
    &&& row.info_hash@ == t.info_hash
    &&& opt_view(row.label) == t.label
    &&& row.download_path@ == t.download_path
    &&& row.added_at == t.added_at
    &&& row.status@ == t.status.name()
}

/// What restoring gives back of a stored torrent `t`: what was stored,
/// everything else as for a new torrent.
pub open spec fn restored_view(t: TorrentInfoView) -> TorrentInfoView {
    TorrentInfoView {
        status: t.status,
        ..new_record(t.id, t.added_at, t.info_hash, t.name, 0, Seq::empty(), t.download_path, t.label)
    }
}

impl TorrentRow {
    /// The row stored for a torrent.
    pub fn of_info(info: &TorrentInfo) -> (row: TorrentRow)
        ensures
            saved_as(row, info@),
    {
        TorrentRow {
            id: info.id.clone(),
            name: info.name.clone(),
            info_hash: info.info_hash.clone(),
            label: clone_opt(&info.label),
            download_path: info.download_path.clone(),
            added_at: info.added_at,
            status: info.status.to_string(),
        }
    }
}

/// `m` with the torrents restored from `rows` stored in turn, each under
/// its id.
pub open spec fn restore_into(m: Map<Seq<char>, TorrentInfoView>, rows: Seq<TorrentRow>) -> Map<Seq<char>, TorrentInfoView>
    decreases rows.len(),
{
    if rows.len() == 0 {
        m
    } else {
        restore_into(m, rows.drop_last()).insert(rows.last().id@, restored_record(rows.last()))
    }
}

impl TorrentInfo {
    /// The record of a torrent restored from the database.
    pub fn from_row(row: &TorrentRow) -> (t: TorrentInfo)
        ensures
            t@ == restored_record(*row),
    {
        let t = TorrentInfo {
            id: row.id.clone(),
            name: row.name.clone(),
            info_hash: row.info_hash.clone(),
            size: 0,
            downloaded: 0,
            uploaded: 0,
            progress: Progress::none(),
            status: TorrentStatus::from_str(row.status.as_str()),
            speed_down: 0,
            speed_up: 0,
            peers: 0,
            seeds: 0,
            eta_secs: None,
            download_path: row.download_path.clone(),
            label: clone_opt(&row.label),
            added_at: row.added_at,
            files: Vec::new(),
            piece_strategy: PieceStrategy::RarestFirst,
            superseeding: false,
            metadata_ready: false,
            trackers: Vec::new(),
        };
        assert(file_views(t.files@) =~= Seq::<TorrentFileView>::empty());
        assert(string_views(t.trackers@) =~= Seq::<Seq<char>>::empty());
        t
    }
}

impl EngineSession {
    /// The peers shown for a torrent; none for an unknown id.
    pub fn get_peers(&self, id: &str) -> (r: Vec<PeerInfo>)
        ensures
            self.torrents().contains_key(id@) ==> {
                let t = self.torrents()[id@];
                let n = shown_peer_count(t, self.config());
                &&& r@.len() == n
                &&& forall|i: int| 0 <= i < n ==> #[trigger] r@[i]@ == peer_entry(t, self.config(), n, i as nat)
            },
            !self.torrents().contains_key(id@) ==> r@.len() == 0,
    {
        proof {
            use_type_invariant(self);
        }
        let t = match self.torrents.get(id) {
            Some(t) => t,
            None => return Vec::new(),
        };
        let cfg = &self.config;
        let max = cfg.max_connections_per_torrent as usize;
        let p = t.peers as usize;
        let a = if p < max { p } else { max };
        let count: usize = if a < 12 { a } else { 12 };
        let ghost n = shown_peer_count(t@, self.config);
        assert(count == n);
        let mut out: Vec<PeerInfo> = Vec::new();
        let mut i: usize = 0;
        while i < count
            invariant
                count == n,
                count <= 12,
                i <= count,
                out@.len() == i,
                forall|j: int| 0 <= j < i ==> #[trigger] out@[j]@ == peer_entry(t@, *cfg, n, j as nat),
            decreases count - i,
        {
            let mut flags: String;
            if cfg.utp_enabled {
                flags = "uT D".to_owned();
                if cfg.dht_enabled {
                    flags.append(" DHT");
                } else {
                    flags.append("");
                }
            } else {
                flags = "TCP".to_owned();
            }
            let i64v = i as u64;
            let mut ip = "10.".to_owned();
            ip.append(u64_to_decimal(i64v / 256).as_str());
            ip.append(".");
            ip.append(u64_to_decimal(i64v % 256).as_str());
            ip.append(".");
            ip.append(u64_to_decimal((i64v * 7) % 256).as_str());
            let client: &str = if i % 5 == 0 {
                "qBittorrent/4.6"
            } else if i % 5 == 1 {
                "Transmission/3.0"
            } else if i % 5 == 2 {
                "libtorrent/2.0"
            } else if i % 5 == 3 {
                "uTorrent/3.5"
            } else {
                "Deluge/2.1"
            };
            let peer = PeerInfo {
                ip,
                port: 6881 + ((i as u16) * 13) % 10000,
                client: client.to_owned(),
                speed_down: t.speed_down / (count as u64 + 1),
                speed_up: t.speed_up / (count as u64 + 1),
                progress: Progress { done: i as u64, total: count as u64 },
                flags,
            };
            assert(peer@ == peer_entry(t@, *cfg, n, i as nat));
            out.push(peer);
            i = i + 1;
        }
        out
    }

    fn checked_total(&self, f: Figure) -> (r: Option<u64>)
        ensures
            match r {
                Some(v) => v == sum_figure(self.torrent_list(), f),
                None => sum_figure(self.torrent_list(), f) > u64::MAX,
            },
    {
        proof {
            use_type_invariant(self);
            self.torrents.lemma_entries();
        }
        let ghost ts = self.torrents.values();
        let mut acc: u64 = 0;
        let mut i: usize = 0;
        while i < self.torrents.len()
            invariant
                ts == self.torrents.values(),
                ts.len() == self.torrents.keys().len(),
                i <= ts.len(),
                acc == sum_figure(ts.take(i as int), f),
            decreases ts.len() - i,
        {
            let v = figure_value(self.torrents.value_at(i), f);
            assert(ts.take(i + 1).drop_last() == ts.take(i as int));
            assert(ts.take(i + 1).last() == ts[i as int]);
            match acc.checked_add(v) {
                Some(x) => {
                    acc = x;
                },
                None => {
                    proof {
                        lemma_sum_figure_prefix(ts, f, i + 1);
                    }
                    return None;
                },
            }
            i = i + 1;
        }
        assert(ts.take(ts.len() as int) == ts);
        Some(acc)
    }

    fn checked_buffered(&self) -> (r: Option<u64>)
        ensures
            match r {
                Some(v) => v == sum_buffered(self.buffer_list()),
                None => sum_buffered(self.buffer_list()) > u64::MAX,
            },
    {
        proof {
            use_type_invariant(self);
            self.write_buffers.lemma_entries();
        }
        let ghost bs = self.write_buffers.values();
        let mut acc: u64 = 0;
        let mut i: usize = 0;
        while i < self.write_buffers.len()
            invariant
                bs == self.write_buffers.values(),
                bs.len() == self.write_buffers.keys().len(),
                i <= bs.len(),
                acc == sum_buffered(bs.take(i as int)),
            decreases bs.len() - i,
        {
            let v = self.write_buffers.value_at(i).used();
            assert(bs.take(i + 1).drop_last() == bs.take(i as int));
            assert(bs.take(i + 1).last() == bs[i as int]);
            match acc.checked_add(v) {
                Some(x) => {
                    acc = x;
                },
                None => {
                    proof {
                        lemma_sum_buffered_prefix(bs, i + 1);
                    }
                    return None;
                },
            }
            i = i + 1;
        }
        assert(bs.take(bs.len() as int) == bs);
        Some(acc)
    }

    fn count_with_status(&self, st: TorrentStatus) -> (n: usize)
        ensures
            n == count_status(self.torrent_list(), st),
    {
        proof {
            use_type_invariant(self);
            self.torrents.lemma_entries();
        }
        let ghost ts = self.torrents.values();
        let mut n: usize = 0;
        let mut i: usize = 0;
        while i < self.torrents.len()
            invariant
                ts == self.torrents.values(),
                ts.len() == self.torrents.keys().len(),
                i <= ts.len(),
                n <= i,
                n == count_status(ts.take(i as int), st),
            decreases ts.len() - i,
        {
            assert(ts.take(i + 1).drop_last() == ts.take(i as int));
            assert(ts.take(i + 1).last() == ts[i as int]);
            if self.torrents.value_at(i).status == st {
                n = n + 1;
            }
            i = i + 1;
        }
        assert(ts.take(ts.len() as int) == ts);
        n
    }

    /// Whether the totals of the session statistics fit in `u64`.
    pub fn stats_in_range(&self) -> (r: bool)
        ensures
            r == stats_fit(self.torrent_list(), self.buffer_list()),
    {
        self.checked_total(Figure::SpeedDown).is_some() && self.checked_total(Figure::SpeedUp).is_some()
            && self.checked_total(Figure::Downloaded).is_some() && self.checked_total(Figure::Uploaded).is_some()
            && self.checked_buffered().is_some()
    }

    /// The statistics of the whole session.
    pub fn global_stats(&self) -> (r: GlobalStats)
        requires
            stats_fit(self.torrent_list(), self.buffer_list()),
        ensures
            self.torrent_list().len() <= u32::MAX ==> {
                &&& r.active_torrents == self.torrent_list().filter(has_status(TorrentStatus::Downloading)).len()
                &&& r.paused_torrents == self.torrent_list().filter(has_status(TorrentStatus::Paused)).len()
                &&& r.seeding_torrents == self.torrent_list().filter(has_status(TorrentStatus::Seeding)).len()
            },
            r == stats_of(self.torrent_list(), self.buffer_list(), self.config(), self.peer_sources()),
    {
        let raw_up = self.checked_total(Figure::SpeedUp).unwrap();
        let speed_up = if self.config.max_upload_bps > 0 && self.config.max_upload_bps < raw_up {
            self.config.max_upload_bps
        } else {
            raw_up
        };
        let raw_down = self.checked_total(Figure::SpeedDown).unwrap();
        let speed_down = if self.config.max_download_bps > 0 && self.config.max_download_bps < raw_down {
            self.config.max_download_bps
        } else {
            raw_down
        };
        let buf_used = self.checked_buffered().unwrap();
        proof {
            if self.torrent_list().len() <= u32::MAX {
                lemma_stats_count_by_status(self.torrent_list(), self.buffer_list(), self.config(), self.peer_sources());
            }
        }
        GlobalStats {
            speed_down,
            speed_up,
            total_downloaded: self.checked_total(Figure::Downloaded).unwrap(),
            total_uploaded: self.checked_total(Figure::Uploaded).unwrap(),
            active_torrents: self.count_with_status(TorrentStatus::Downloading) as u32,
            paused_torrents: self.count_with_status(TorrentStatus::Paused) as u32,
            seeding_torrents: self.count_with_status(TorrentStatus::Seeding) as u32,
            dht_nodes: self.dht_nodes,
            pex_peers: self.pex_peers,
            lsd_peers: self.lsd_peers,
            write_buffer_used: buf_used,
            write_buffer_capacity: self.config.write_buffer_bytes,
        }
    }

    /// One step of the peer discovery ramp-up towards `target` DHT nodes.
    pub fn discovery_step(&mut self, target: u32)
        ensures
            final(self).buffers_follow_torrents(),
            final(self).peer_sources() == discovery_after(old(self).config(), old(self).peer_sources(), target),
            final(self).torrents() == old(self).torrents(),
            final(self).buffers() == old(self).buffers(),
            final(self).config() == old(self).config(),
    {
        proof {
            use_type_invariant(&*self);
        }
        if self.config.dht_enabled {
            self.dht_nodes = target;
        }
        if self.config.pex_enabled {
            self.pex_peers = target / 3;
        }
        if self.config.lsd_enabled {
            self.lsd_peers = 2;
        }
    }

    /// Stores the torrents restored from the database, each under its id,
    /// and returns how many there were.
    pub fn restore_torrents(&mut self, rows: &Vec<TorrentRow>) -> (count: usize)
        ensures
            final(self).buffers_follow_torrents(),
            count == rows@.len(),
            final(self).torrents() == restore_into(old(self).torrents(), rows@),
            final(self).buffers() == old(self).buffers(),
            final(self).config() == old(self).config(),
            final(self).peer_sources() == old(self).peer_sources(),
    {
        proof {
            use_type_invariant(&*self);
        }
        let ghost start = self.torrents();
        let mut i: usize = 0;
        while i < rows.len()
            invariant
                i <= rows@.len(),
                self.buffers_follow_torrents(),
                self.torrents() == restore_into(start, rows@.take(i as int)),
                self.buffers() == old(self).buffers(),
                self.config() == old(self).config(),
                self.peer_sources() == old(self).peer_sources(),
            decreases rows@.len() - i,
        {
            let t = TorrentInfo::from_row(&rows[i]);
            assert(rows@.take(i + 1).drop_last() == rows@.take(i as int));
            assert(rows@.take(i + 1).last() == rows@[i as int]);
            self.insert_torrent(t);
            i = i + 1;
        }
        assert(rows@.take(rows@.len() as int) == rows@);
        i
    }
}

/// A torrent just stored is what a lookup of its id gives back.
pub proof fn lemma_read_after_add(m: Map<Seq<char>, TorrentInfoView>, t: TorrentInfoView)
    ensures
        m.insert(t.id, t).contains_key(t.id),
        m.insert(t.id, t)[t.id] == t,
        m.insert(t.id, t).dom() == m.dom().insert(t.id),
{
}

/// Removing a torrent just added under a new id gives back the torrents
/// there were before.
pub proof fn lemma_remove_undoes_add(m: Map<Seq<char>, TorrentInfoView>, t: TorrentInfoView)
    requires
        !m.contains_key(t.id),
    ensures
        m.insert(t.id, t).remove(t.id) == m,
{
    assert(m.insert(t.id, t).remove(t.id) =~= m);
}

/// Pausing, resuming and changing per-torrent settings never add or drop
/// torrents, and leave every other torrent as it was.
pub proof fn lemma_update_keeps_others(
    m: Map<Seq<char>, TorrentInfoView>,
    id: Seq<char>,
    f: spec_fn(TorrentInfoView) -> TorrentInfoView,
)
    ensures
        update_at(m, id, f).dom() == m.dom(),
        forall|k: Seq<char>| k != id && #[trigger] m.contains_key(k) ==> update_at(m, id, f)[k] == m[k],
{
    if m.contains_key(id) {
        assert(m.insert(id, f(m[id])).dom() =~= m.dom());
    }
}

/// A torrent added from a magnet link is checked until its trackers
/// answer; then it downloads, its metadata ready.
pub proof fn lemma_magnet_torrent_starts_after_announce(
    id: Seq<char>,
    added_at: i64,
    magnet: Seq<char>,
    download_path: Seq<char>,
    label: Option<Seq<char>>,
    peer_count: u32,
)
    ensures
        magnet_record(id, added_at, magnet, download_path, label).status == TorrentStatus::Checking,
        !magnet_record(id, added_at, magnet, download_path, label).metadata_ready,
        after_magnet_announce(magnet_record(id, added_at, magnet, download_path, label), peer_count).status
            == TorrentStatus::Downloading,
        after_magnet_announce(magnet_record(id, added_at, magnet, download_path, label), peer_count).metadata_ready,
        after_magnet_announce(magnet_record(id, added_at, magnet, download_path, label), peer_count).peers == peer_count,
{
}

/// Whether a torrent has status `st`.
pub open spec fn has_status(st: TorrentStatus) -> spec_fn(TorrentInfoView) -> bool {
    |t: TorrentInfoView| t.status == st
}

/// Counting the torrents with a status counts exactly those among them
/// that have it.
pub proof fn lemma_count_status_is_filter(ts: Seq<TorrentInfoView>, st: TorrentStatus)
    ensures
        count_status(ts, st) == ts.filter(has_status(st)).len(),
        ts.filter(has_status(st)).len() <= ts.len(),
    decreases ts.len(),
{
    reveal(Seq::filter);
    if ts.len() > 0 {
        lemma_count_status_is_filter(ts.drop_last(), st);
    }
}

/// The statistics count as active exactly the torrents that are
/// downloading, as paused those paused and as seeding those seeding: a
/// seeding or paused torrent is never counted as active.
pub proof fn lemma_stats_count_by_status(
    ts: Seq<TorrentInfoView>,
    bs: Seq<WriteBuffer>,
    cfg: EngineConfig,
    sources: (u32, u32, u32),
)
    requires
        ts.len() <= u32::MAX,
    ensures
        stats_of(ts, bs, cfg, sources).active_torrents == ts.filter(has_status(TorrentStatus::Downloading)).len(),
        stats_of(ts, bs, cfg, sources).paused_torrents == ts.filter(has_status(TorrentStatus::Paused)).len(),
        stats_of(ts, bs, cfg, sources).seeding_torrents == ts.filter(has_status(TorrentStatus::Seeding)).len(),
{
    lemma_count_status_is_filter(ts, TorrentStatus::Downloading);
    lemma_count_status_is_filter(ts, TorrentStatus::Paused);
    lemma_count_status_is_filter(ts, TorrentStatus::Seeding);
}

/// Adding a torrent that is not downloading leaves the active count as it
/// was; adding one that is downloading raises it by one.
pub proof fn lemma_active_count_push(ts: Seq<TorrentInfoView>, t: TorrentInfoView)
    ensures
        ts.push(t).filter(has_status(TorrentStatus::Downloading)).len()
            == ts.filter(has_status(TorrentStatus::Downloading)).len() + if t.status == TorrentStatus::Downloading { 1int } else { 0int },
{
    ts.lemma_filter_push(t, has_status(TorrentStatus::Downloading));
}

/// A paused torrent has status `Paused` and no speed, whatever its status
/// was, and keeps everything else.
pub proof fn lemma_pause_sets_paused(t: TorrentInfoView)
    ensures
        paused(t).status == TorrentStatus::Paused,
        paused(t).speed_down == 0,
        paused(t).speed_up == 0,
        paused(t).id == t.id,
        paused(t).progress == t.progress,
        paused(t).downloaded == t.downloaded,
        paused(t).files == t.files,
        paused(t).piece_strategy == t.piece_strategy,
        paused(t).superseeding == t.superseeding,
{
}

/// Per-torrent settings set what they give and leave every setting given
/// as `None` at its value; nothing else about the torrent changes.
pub proof fn lemma_config_sets_given_keeps_rest(t: TorrentInfoView, cfg: TorrentConfig)
    ensures
        cfg.superseeding is None ==> configured(t, cfg).superseeding == t.superseeding,
        cfg.piece_strategy is None ==> configured(t, cfg).piece_strategy == t.piece_strategy,
        cfg.superseeding matches Some(b) ==> configured(t, cfg).superseeding == b,
        cfg.piece_strategy matches Some(p) ==> configured(t, cfg).piece_strategy == p,
        configured(t, cfg).status == t.status,
        configured(t, cfg).id == t.id,
        configured(t, cfg).files == t.files,
{
}

/// Settings applied one after the other: a later call that leaves a
/// setting `None` keeps what the earlier call set.
pub proof fn lemma_config_calls_compose(t: TorrentInfoView, first: TorrentConfig, second: TorrentConfig)
    ensures
        second.superseeding is None ==> configured(configured(t, first), second).superseeding == configured(t, first).superseeding,
        second.piece_strategy is None ==> configured(configured(t, first), second).piece_strategy == configured(t, first).piece_strategy,
        second.superseeding is None ==> (first.superseeding matches Some(b) ==> configured(configured(t, first), second).superseeding == b),
{
}

/// A torrent added from a `.torrent` file or a magnet link carries the id,
/// time, folder and label it was added with.
pub proof fn lemma_records_keep_inputs(
    id: Seq<char>,
    added_at: i64,
    data: Seq<u8>,
    torrent: BencodeTorrent,
    magnet: Seq<char>,
    download_path: Seq<char>,
    label: Option<Seq<char>>,
)
    ensures
        file_record(id, added_at, data, torrent, download_path, label).label == label,
        file_record(id, added_at, data, torrent, download_path, label).download_path == download_path,
        file_record(id, added_at, data, torrent, download_path, label).id == id,
        file_record(id, added_at, data, torrent, download_path, label).added_at == added_at,
        file_record(id, added_at, data, torrent, download_path, label).name == torrent_name(torrent),
        magnet_record(id, added_at, magnet, download_path, label).label == label,
        magnet_record(id, added_at, magnet, download_path, label).download_path == download_path,
        magnet_record(id, added_at, magnet, download_path, label).id == id,
{
}

/// Pausing twice is pausing once.
pub proof fn lemma_pause_idempotent(t: TorrentInfoView)
    ensures
        paused(paused(t)) == paused(t),
{
}

/// A paused torrent that is resumed downloads again, or seeds when it is
/// complete; its speeds stay zero until new figures come and nothing else
/// about it changes.
pub proof fn lemma_pause_then_resume(t: TorrentInfoView)
    ensures
        resumed(paused(t)) == (TorrentInfoView {
            status: if t.progress.is_full() { TorrentStatus::Seeding } else { TorrentStatus::Downloading },
            speed_down: 0,
            speed_up: 0,
            ..t
        }),
        !t.progress.is_full() ==> resumed(paused(t)).status == TorrentStatus::Downloading,
{
}

/// The reported speeds respect the upload and download throttles, and
/// never exceed the torrents' own total.
pub proof fn lemma_stats_throttled(
    ts: Seq<TorrentInfoView>,
    bs: Seq<WriteBuffer>,
    cfg: EngineConfig,
    sources: (u32, u32, u32),
)
    requires
        stats_fit(ts, bs),
    ensures
        cfg.max_upload_bps > 0 ==> stats_of(ts, bs, cfg, sources).speed_up <= cfg.max_upload_bps,
        cfg.max_download_bps > 0 ==> stats_of(ts, bs, cfg, sources).speed_down <= cfg.max_download_bps,
        stats_of(ts, bs, cfg, sources).speed_up <= sum_figure(ts, Figure::SpeedUp),
        stats_of(ts, bs, cfg, sources).speed_down <= sum_figure(ts, Figure::SpeedDown),
{
    lemma_sum_figure_nonneg(ts, Figure::SpeedUp);
    lemma_sum_figure_nonneg(ts, Figure::SpeedDown);
}

/// When the totals fit, the statistics report them exactly: the transfer
/// totals and the bytes held in the write buffers are the sums over the
/// torrents and buffers, and each speed is the total under its throttle.
pub proof fn lemma_stats_totals(
    ts: Seq<TorrentInfoView>,
    bs: Seq<WriteBuffer>,
    cfg: EngineConfig,
    sources: (u32, u32, u32),
)
    requires
        stats_fit(ts, bs),
    ensures
        stats_of(ts, bs, cfg, sources).total_downloaded == sum_figure(ts, Figure::Downloaded),
        stats_of(ts, bs, cfg, sources).total_uploaded == sum_figure(ts, Figure::Uploaded),
        stats_of(ts, bs, cfg, sources).write_buffer_used == sum_buffered(bs),
        stats_of(ts, bs, cfg, sources).speed_down == throttled(sum_figure(ts, Figure::SpeedDown), cfg.max_download_bps),
        stats_of(ts, bs, cfg, sources).speed_up == throttled(sum_figure(ts, Figure::SpeedUp), cfg.max_upload_bps),
{
    lemma_sum_figure_nonneg(ts, Figure::SpeedUp);
    lemma_sum_figure_nonneg(ts, Figure::SpeedDown);
    lemma_sum_figure_nonneg(ts, Figure::Downloaded);
    lemma_sum_figure_nonneg(ts, Figure::Uploaded);
    lemma_sum_buffered_nonneg(bs);
}

/// The peer list shows at most 12 peers, never more than the connection
/// pool allows per torrent nor more than the torrent has.
pub proof fn lemma_peer_list_capped(t: TorrentInfoView, cfg: EngineConfig)
    ensures
        shown_peer_count(t, cfg) <= 12,
        shown_peer_count(t, cfg) <= cfg.max_connections_per_torrent,
        shown_peer_count(t, cfg) <= t.peers,
{
}

/// The discovery counts after running the whole ramp-up.
pub open spec fn discovery_ramp(cfg: EngineConfig, start: (u32, u32, u32)) -> (u32, u32, u32) {
    discovery_after(cfg, discovery_after(cfg, discovery_after(cfg, discovery_after(cfg, start, 12), 48), 120), 256)
}

/// Once the ramp-up is over, an enabled DHT knows 256 nodes, enabled PEX
/// 85 peers and enabled LSD 2 local peers; disabled sources keep their
/// counts.
pub proof fn lemma_discovery_ramp(cfg: EngineConfig, start: (u32, u32, u32))
    ensures
        discovery_ramp(cfg, start) == (
            if cfg.dht_enabled { 256u32 } else { start.0 },
            if cfg.pex_enabled { 85u32 } else { start.1 },
            if cfg.lsd_enabled { 2u32 } else { start.2 },
        ),
{
}

/// Every restored torrent can be found under its id afterwards.
pub proof fn lemma_restore_finds_rows(m: Map<Seq<char>, TorrentInfoView>, rows: Seq<TorrentRow>)
    ensures
        forall|i: int| 0 <= i < rows.len() ==> #[trigger] restore_into(m, rows).contains_key(rows[i].id@),
        forall|k: Seq<char>| #[trigger] m.contains_key(k) ==> restore_into(m, rows).contains_key(k),
    decreases rows.len(),
{
    if rows.len() > 0 {
        lemma_restore_finds_rows(m, rows.drop_last());
        assert forall|i: int| 0 <= i < rows.len() implies #[trigger] restore_into(m, rows).contains_key(rows[i].id@) by {
            if i < rows.len() - 1 {
                assert(rows.drop_last()[i] == rows[i]);
                assert(restore_into(m, rows.drop_last()).contains_key(rows.drop_last()[i].id@));
            } else {
                assert(rows.last() == rows[i]);
            }
        }
    }
}

/// Restoring touches no torrent that has no row: it keeps being there, or
/// not, as it was.
pub proof fn lemma_restore_keeps_others(m: Map<Seq<char>, TorrentInfoView>, rows: Seq<TorrentRow>, k: Seq<char>)
    requires
        forall|j: int| 0 <= j < rows.len() ==> #[trigger] rows[j].id@ != k,
    ensures
        restore_into(m, rows).contains_key(k) == m.contains_key(k),
        m.contains_key(k) ==> restore_into(m, rows)[k] == m[k],
    decreases rows.len(),
{
    if rows.len() > 0 {
        assert forall|j: int| 0 <= j < rows.drop_last().len() implies #[trigger] rows.drop_last()[j].id@ != k by {
            assert(rows.drop_last()[j] == rows[j]);
        }
        lemma_restore_keeps_others(m, rows.drop_last(), k);
        assert(rows.last() == rows[rows.len() - 1]);
    }
}

/// A torrent saved as a row comes back from a restore (its row being the
/// only one with its id) with its id, name, info hash, label, folder, time
/// added and status, everything else as for a new torrent.
pub proof fn lemma_save_then_restore(m: Map<Seq<char>, TorrentInfoView>, rows: Seq<TorrentRow>, t: TorrentInfoView, i: int)
    requires
        0 <= i < rows.len(),
        saved_as(rows[i], t),
        forall|j: int| 0 <= j < rows.len() && j != i ==> #[trigger] rows[j].id@ != t.id,
    ensures
        restore_into(m, rows).contains_key(t.id),
        restore_into(m, rows)[t.id] == restored_view(t),
    decreases rows.len(),
{
    crate::models::lemma_status_name_round_trip(t.status);
    if i == rows.len() - 1 {
        assert(rows.last() == rows[i]);
    } else {
        assert forall|j: int| 0 <= j < rows.drop_last().len() && j != i implies #[trigger] rows.drop_last()[j].id@ != t.id by {
            assert(rows.drop_last()[j] == rows[j]);
        }
        assert(rows.drop_last()[i] == rows[i]);
        lemma_save_then_restore(m, rows.drop_last(), t, i);
        assert(rows.last() == rows[rows.len() - 1]);
    }
}

/// A new buffer capacity reaches every write buffer, and no buffer is
/// added, dropped or loses what it holds.
pub proof fn lemma_capacity_reaches_all_buffers(m: Map<Seq<char>, WriteBuffer>, cap: u64)
    ensures
        with_capacity(m, cap).dom() == m.dom(),
        forall|k: Seq<char>| #[trigger] m.contains_key(k) ==> with_capacity(m, cap)[k].capacity == cap
            && with_capacity(m, cap)[k].buffered == m[k].buffered
            && with_capacity(m, cap)[k].flushed == m[k].flushed,
{
    assert(with_capacity(m, cap).dom() =~= m.dom());
}

} // verus!
