use ferroload::session::{EngineSession, WriteBuffer, TorrentRow, discovery_targets};
use ferroload::models::{TorrentStatus, TorrentConfig, PieceStrategy, EngineConfig, Progress, GlobalStats, FilePriority};
use ferroload::events::TorrentEvent;
use ferroload::magnet::MagnetError;
use ferroload::torrent_file::{BencodeTorrent, BencodeInfo, BencodeFile};

const LINK: &str = "magnet:?xt=urn:btih:ABC123&dn=Debian&tr=http%3A%2F%2Ft%2Fa";

fn single_file(name: &str, len: u64) -> BencodeTorrent {
    BencodeTorrent {
        info: BencodeInfo { name: Some(name.to_string()), length: Some(len), files: None, pieces: None, piece_length: None },
        announce: None,
        announce_list: None,
    }
}

#[test]
fn write_buffer_flushes_when_full() {
    let mut b = WriteBuffer::new(10);
    assert_eq!(b.write(4), 0);
    assert_eq!(b.used(), 4);
    assert_eq!(b.write(5), 0);
    assert_eq!(b.used(), 9);
    assert_eq!(b.write(3), 12);
    assert_eq!(b.used(), 0);
    assert_eq!(b.flushed, 12);
    assert_eq!(b.write(10), 10);
    assert_eq!(b.flushed, 22);
    let mut z = WriteBuffer::new(0);
    assert_eq!(z.write(0), 0);
    assert_eq!(z.used(), 0);
}

#[test]
fn new_session_is_empty() {
    let s = EngineSession::new("/downloads");
    assert!(s.list_torrents().is_empty());
    assert!(s.get_torrent("x").is_none());
    assert!(s.get_peers("x").is_empty());
    assert!(s.stats_in_range());
    let stats = s.global_stats();
    assert_eq!(stats, GlobalStats {
        speed_down: 0,
        speed_up: 0,
        total_downloaded: 0,
        total_uploaded: 0,
        active_torrents: 0,
        paused_torrents: 0,
        seeding_torrents: 0,
        dht_nodes: 0,
        pex_peers: 0,
        lsd_peers: 0,
        write_buffer_used: 0,
        write_buffer_capacity: 4 * 1024 * 1024,
    });
}

#[test]
fn magnet_torrent_lifecycle() {
    let mut s = EngineSession::new("/downloads");
    let info = s.add_magnet(LINK, "/dl", Some("linux".to_string())).unwrap();
    assert_eq!(info.id.len(), 36);
    assert_eq!(info.info_hash, "abc123");
    assert_eq!(info.name, "Debian");
    assert_eq!(info.status, TorrentStatus::Checking);
    assert_eq!(info.trackers, vec!["http://t/a".to_string()]);
    assert_eq!(info.download_path, "/dl");
    assert_eq!(info.label.as_deref(), Some("linux"));
    assert_eq!(info.size, 0);
    assert!(info.files.is_empty());
    assert!(!info.metadata_ready);
    assert_eq!(info.piece_strategy, PieceStrategy::RarestFirst);

    let got = s.get_torrent(&info.id).unwrap();
    assert_eq!(got.id, info.id);
    assert_eq!(got.status, TorrentStatus::Checking);

    let ev = s.magnet_announced(&info.id, 30).unwrap();
    match ev {
        TorrentEvent::TorrentProgress { id, downloaded, total, peers, eta_secs, progress, .. } => {
            assert_eq!(id, info.id);
            assert_eq!(downloaded, 0);
            assert_eq!(total, 0);
            assert_eq!(peers, 30);
            assert!(eta_secs.is_none());
            assert_eq!(progress, Progress { done: 0, total: 1 });
        },
        _ => panic!("a progress event is expected"),
    }
    let t = s.get_torrent(&info.id).unwrap();
    assert_eq!(t.peers, 30);
    assert_eq!(t.seeds, 20);
    assert!(t.metadata_ready);
    assert_eq!(t.status, TorrentStatus::Downloading);

    s.pause_torrent(&info.id);
    assert_eq!(s.get_torrent(&info.id).unwrap().status, TorrentStatus::Paused);
    s.resume_torrent(&info.id);
    assert_eq!(s.get_torrent(&info.id).unwrap().status, TorrentStatus::Downloading);

    s.set_torrent_config(&info.id, TorrentConfig { piece_strategy: Some(PieceStrategy::Sequential), superseeding: None });
    let t = s.get_torrent(&info.id).unwrap();
    assert_eq!(t.piece_strategy, PieceStrategy::Sequential);
    assert!(!t.superseeding);
    s.set_torrent_config(&info.id, TorrentConfig { piece_strategy: None, superseeding: Some(true) });
    let t = s.get_torrent(&info.id).unwrap();
    assert_eq!(t.piece_strategy, PieceStrategy::Sequential);
    assert!(t.superseeding);

    s.remove_torrent(&info.id);
    assert!(s.get_torrent(&info.id).is_none());
    assert!(s.list_torrents().is_empty());
    assert!(s.magnet_announced(&info.id, 3).is_none());
}

#[test]
fn bad_magnet_changes_nothing() {
    let mut s = EngineSession::new("/downloads");
    assert!(matches!(s.add_magnet("magnet:?dn=x", "/dl", None), Err(MagnetError::MissingInfoHash)));
    assert!(s.list_torrents().is_empty());
}

#[test]
fn unknown_ids_change_nothing() {
    let mut s = EngineSession::new("/downloads");
    let info = s.add_magnet(LINK, "/dl", None).unwrap();
    s.pause_torrent("nope");
    s.resume_torrent("nope");
    s.remove_torrent("nope");
    let list = s.list_torrents();
    assert_eq!(list.len(), 1);
    assert_eq!(list[0].status, TorrentStatus::Checking);
    assert_eq!(list[0].id, info.id);
}

#[test]
fn torrent_file_gets_write_buffer_and_stats() {
    let mut s = EngineSession::new("/downloads");
    let data = b"d4:infod4:name3:abc6:lengthi10eee".to_vec();
    let info = s.add_torrent_file(data, &single_file("abc", 10), "/dl", None);
    assert!(info.metadata_ready);
    assert_eq!(info.status, TorrentStatus::Downloading);
    assert_eq!(info.info_hash, "de7d35d0a423ab9dffaba8bb1e2fb1b3e6873eb3");
    assert_eq!(info.size, 10);
    assert_eq!(info.files.len(), 1);

    assert!(s.file_announced(&info.id, 0).is_none());
    assert_eq!(s.get_torrent(&info.id).unwrap().peers, 0);
    assert!(s.file_announced(&info.id, 9).is_some());
    let t = s.get_torrent(&info.id).unwrap();
    assert_eq!(t.peers, 9);
    assert_eq!(t.seeds, 6);
    assert_eq!(t.status, TorrentStatus::Downloading);

    let magnet = s.add_magnet(LINK, "/dl", None).unwrap();
    s.pause_torrent(&magnet.id);
    let stats = s.global_stats();
    assert_eq!(stats.active_torrents, 1);
    assert_eq!(stats.paused_torrents, 1);
    assert_eq!(stats.seeding_torrents, 0);
    assert_eq!(stats.write_buffer_used, 0);
    assert_eq!(stats.write_buffer_capacity, 4 * 1024 * 1024);

    let mut cfg = EngineConfig::default();
    cfg.write_buffer_bytes = 1024;
    cfg.max_upload_bps = 5;
    s.apply_config(cfg);
    assert_eq!(s.global_stats().write_buffer_capacity, 1024);
}

#[test]
fn peer_list_follows_config() {
    let mut s = EngineSession::new("/downloads");
    let info = s.add_magnet(LINK, "/dl", None).unwrap();
    s.magnet_announced(&info.id, 30);
    let peers = s.get_peers(&info.id);
    assert_eq!(peers.len(), 12);
    assert_eq!(peers[0].ip, "10.0.0.0");
    assert_eq!(peers[11].ip, "10.0.11.77");
    assert_eq!(peers[1].port, 6894);
    assert_eq!(peers[0].client, "qBittorrent/4.6");
    assert_eq!(peers[6].client, "Transmission/3.0");
    assert_eq!(peers[4].client, "Deluge/2.1");
    assert_eq!(peers[3].flags, "uT D DHT");
    assert_eq!(peers[3].progress, Progress { done: 3, total: 12 });
    assert_eq!(peers[3].speed_down, 0);

    let mut cfg = EngineConfig::default();
    cfg.max_connections_per_torrent = 5;
    cfg.dht_enabled = false;
    s.apply_config(cfg);
    let peers = s.get_peers(&info.id);
    assert_eq!(peers.len(), 5);
    assert_eq!(peers[0].flags, "uT D");

    cfg.utp_enabled = false;
    s.apply_config(cfg);
    assert_eq!(s.get_peers(&info.id)[2].flags, "TCP");

    s.magnet_announced(&info.id, 2);
    assert_eq!(s.get_peers(&info.id).len(), 2);
}

#[test]
fn discovery_ramps_up() {
    let mut s = EngineSession::new("/downloads");
    let targets = discovery_targets();
    assert_eq!(targets, vec![12, 48, 120, 256]);
    s.discovery_step(targets[0]);
    let stats = s.global_stats();
    assert_eq!((stats.dht_nodes, stats.pex_peers, stats.lsd_peers), (12, 4, 2));
    for t in targets {
        s.discovery_step(t);
    }
    let stats = s.global_stats();
    assert_eq!((stats.dht_nodes, stats.pex_peers, stats.lsd_peers), (256, 85, 2));

    let mut quiet = EngineSession::new("/downloads");
    let mut cfg = EngineConfig::default();
    cfg.dht_enabled = false;
    cfg.lsd_enabled = false;
    quiet.apply_config(cfg);
    quiet.discovery_step(120);
    let stats = quiet.global_stats();
    assert_eq!((stats.dht_nodes, stats.pex_peers, stats.lsd_peers), (0, 40, 0));
}

#[test]
fn restored_torrents_are_stored_by_id() {
    let mut s = EngineSession::new("/downloads");
    let rows = vec![
        TorrentRow {
            id: "one".to_string(),
            name: "First".to_string(),
            info_hash: "h1".to_string(),
            label: None,
            download_path: "/a".to_string(),
            added_at: 100,
            status: "seeding".to_string(),
        },
        TorrentRow {
            id: "two".to_string(),
            name: "Second".to_string(),
            info_hash: "h2".to_string(),
            label: Some("tv".to_string()),
            download_path: "/b".to_string(),
            added_at: 200,
            status: "bogus".to_string(),
        },
    ];
    assert_eq!(s.restore_torrents(&rows), 2);
    let one = s.get_torrent("one").unwrap();
    assert_eq!(one.status, TorrentStatus::Seeding);
    assert_eq!(one.added_at, 100);
    assert_eq!(one.name, "First");
    let two = s.get_torrent("two").unwrap();
    assert_eq!(two.status, TorrentStatus::Paused);
    assert_eq!(two.label.as_deref(), Some("tv"));
    assert_eq!(two.download_path, "/b");
    assert_eq!(s.list_torrents().len(), 2);
    let stats = s.global_stats();
    assert_eq!(stats.seeding_torrents, 1);
    assert_eq!(stats.paused_torrents, 1);
    s.resume_torrent("one");
    assert_eq!(s.get_torrent("one").unwrap().status, TorrentStatus::Downloading);
}

#[test]
fn write_sequence_conserves_bytes() {
    let xs: [u64; 6] = [3, 4, 5, 2, 20, 1];
    let mut b = WriteBuffer::new(10);
    let mut committed: Vec<u64> = Vec::new();
    for x in xs {
        committed.push(b.write(x));
    }
    assert_eq!(committed, vec![0, 0, 12, 0, 22, 0]);
    let written: u64 = xs.iter().sum();
    let total_committed: u64 = committed.iter().sum();
    assert_eq!(b.used() + b.flushed, written);
    assert_eq!(total_committed, b.flushed);
    assert_eq!(b.used(), written - total_committed);
    assert_eq!(b.used(), 1);
    assert!(b.used() < b.capacity);
    let mut z = WriteBuffer::new(0);
    assert_eq!(z.write(7), 7);
    assert_eq!(z.write(0), 0);
    assert_eq!(z.used(), 0);
    assert_eq!(z.flushed, 7);
}

#[test]
fn file_priorities_are_set_per_file() {
    let mut s = EngineSession::new("/downloads");
    let t = BencodeTorrent {
        info: BencodeInfo {
            name: Some("pack".to_string()),
            length: None,
            files: Some(vec![
                BencodeFile { length: 5, path: vec!["a.txt".to_string()] },
                BencodeFile { length: 7, path: vec!["dir".to_string(), "b.txt".to_string()] },
            ]),
            pieces: None,
            piece_length: None,
        },
        announce: None,
        announce_list: None,
    };
    let info = s.add_torrent_file(b"d4:infod4:name4:packee".to_vec(), &t, "/dl", None);
    assert!(s.set_file_priority(&info.id, 1, FilePriority::Skip));
    let after = s.get_torrent(&info.id).unwrap();
    assert_eq!(after.files[0].priority, FilePriority::Normal);
    assert_eq!(after.files[1].priority, FilePriority::Skip);
    assert_eq!(after.files[1].path, "dir/b.txt");
    assert!(!s.set_file_priority(&info.id, 2, FilePriority::High));
    assert!(!s.set_file_priority("nope", 0, FilePriority::High));
    assert_eq!(FilePriority::from_name("high"), Some(FilePriority::High));
    assert_eq!(FilePriority::from_name("normal"), Some(FilePriority::Normal));
    assert_eq!(FilePriority::from_name("skip"), Some(FilePriority::Skip));
    assert_eq!(FilePriority::from_name("High"), None);
}

#[test]
fn saved_torrent_comes_back_after_restart() {
    let mut s = EngineSession::new("/downloads");
    let info = s.add_magnet(LINK, "/dl", Some("linux".to_string())).unwrap();
    s.pause_torrent(&info.id);
    let paused = s.get_torrent(&info.id).unwrap();
    let row = TorrentRow::of_info(&paused);
    assert_eq!(row.status, "paused");
    let mut fresh = EngineSession::new("/downloads");
    assert_eq!(fresh.restore_torrents(&vec![row]), 1);
    let back = fresh.get_torrent(&info.id).unwrap();
    assert_eq!(back.id, paused.id);
    assert_eq!(back.name, "Debian");
    assert_eq!(back.info_hash, "abc123");
    assert_eq!(back.label.as_deref(), Some("linux"));
    assert_eq!(back.download_path, "/dl");
    assert_eq!(back.added_at, paused.added_at);
    assert_eq!(back.status, TorrentStatus::Paused);
    assert_eq!(back.size, 0);
    assert!(back.trackers.is_empty());
    assert!(back.files.is_empty());
    assert!(!back.metadata_ready);
}
