use ferroload::settings::{
    engine_config_from_settings, settings_in_range, default_settings, resolve_home, default_download_path,
    default_data_dir, listen_port,
};
use ferroload::models::{TorrentStatus, PieceStrategy, EngineConfig, TrackerInfo, TrackerStatus, Progress};
use ferroload::tracker::{announce_targets, announce_url, tracker_peer_count, announce_step, peer_count_in_range};

fn rows(v: &[(&str, &str)]) -> Vec<(String, String)> {
    v.iter().map(|(k, v)| (k.to_string(), v.to_string())).collect()
}

#[test]
fn default_settings_give_default_config() {
    let d = default_settings("/home/u/Downloads/Ferroload");
    assert_eq!(d.len(), 18);
    assert_eq!(d[0], ("download_path".to_string(), "/home/u/Downloads/Ferroload".to_string()));
    assert!(settings_in_range(&d));
    assert_eq!(engine_config_from_settings(&d), EngineConfig::default());
    assert_eq!(engine_config_from_settings(&vec![]), EngineConfig::default());
}

#[test]
fn settings_values_are_read_and_scaled() {
    let r = rows(&[
        ("max_connections_per_torrent", "150"),
        ("dht_enabled", "false"),
        ("pex_enabled", "TRUE"),
        ("max_upload_speed_kbps", "100"),
        ("max_download_speed_kbps", "oops"),
        ("write_buffer_mb", "16"),
        ("max_total_connections", "99999999999"),
        ("utp_enabled", "true"),
        ("max_connections_per_torrent", "200"),
    ]);
    assert!(settings_in_range(&r));
    let cfg = engine_config_from_settings(&r);
    assert_eq!(cfg.max_connections_per_torrent, 200);
    assert_eq!(cfg.max_total_connections, 500);
    assert!(!cfg.dht_enabled);
    assert!(!cfg.pex_enabled);
    assert!(cfg.lsd_enabled);
    assert_eq!(cfg.max_upload_bps, 100 * 1024);
    assert_eq!(cfg.max_download_bps, 0);
    assert_eq!(cfg.write_buffer_bytes, 16 * 1024 * 1024);
    assert!(cfg.utp_enabled);
}

#[test]
fn oversized_settings_are_detected() {
    assert!(!settings_in_range(&rows(&[("max_upload_speed_kbps", "18446744073709551615")])));
    assert!(!settings_in_range(&rows(&[("write_buffer_mb", "17592186044416")])));
    assert!(settings_in_range(&rows(&[("write_buffer_mb", "17592186044415")])));
}

#[test]
fn folders_and_port() {
    assert_eq!(resolve_home(Some("/h".to_string()), Some("/u".to_string())), "/h");
    assert_eq!(resolve_home(None, Some("/u".to_string())), "/u");
    assert_eq!(resolve_home(None, None), ".");
    assert_eq!(default_download_path(&Some("/my/data/dir".to_string()), "/home/u"), "/my/data/dir/../Downloads/Ferroload");
    assert_eq!(default_download_path(&None, "/home/u"), "/home/u/Downloads/Ferroload");
    assert_eq!(default_data_dir(None, "/h"), "/h/.ferroload");
    assert_eq!(default_data_dir(Some("/data".to_string()), "/h"), "/data");
    assert_eq!(listen_port(None), 7070);
    assert_eq!(listen_port(Some("8080".to_string())), 8080);
    assert_eq!(listen_port(Some("70000".to_string())), 7070);
    assert_eq!(listen_port(Some("port".to_string())), 7070);
}

#[test]
fn status_names_round_trip() {
    for s in [
        TorrentStatus::Paused,
        TorrentStatus::Downloading,
        TorrentStatus::Seeding,
        TorrentStatus::Error,
        TorrentStatus::Checking,
        TorrentStatus::Queued,
    ] {
        assert_eq!(TorrentStatus::from_str(&s.to_string()), s);
    }
    assert_eq!(TorrentStatus::Downloading.to_string(), "downloading");
    assert_eq!(TorrentStatus::from_str("Downloading"), TorrentStatus::Paused);
    assert_eq!(TorrentStatus::from_str(""), TorrentStatus::Paused);
}

#[test]
fn strategy_names_round_trip() {
    for s in [PieceStrategy::RarestFirst, PieceStrategy::Sequential, PieceStrategy::Random] {
        assert_eq!(PieceStrategy::from_str(&s.to_string()), s);
    }
    assert_eq!(PieceStrategy::RarestFirst.to_string(), "rarest_first");
    assert_eq!(PieceStrategy::from_str("whatever"), PieceStrategy::RarestFirst);
    assert_eq!(PieceStrategy::default(), PieceStrategy::RarestFirst);
}

#[test]
fn model_defaults() {
    let cfg = EngineConfig::default();
    assert_eq!(cfg.max_connections_per_torrent, 80);
    assert_eq!(cfg.max_total_connections, 500);
    assert_eq!(cfg.write_buffer_bytes, 4194304);
    assert!(cfg.dht_enabled && cfg.pex_enabled && cfg.lsd_enabled && cfg.utp_enabled);
    let t = TrackerInfo::default();
    assert_eq!(t.status, TrackerStatus::Idle);
    assert!(t.url.is_empty() && t.message.is_none());
    assert_eq!(TrackerStatus::default(), TrackerStatus::Idle);
    assert!(Progress { done: 5, total: 5 }.full());
    assert!(!Progress { done: 4, total: 5 }.full());
    assert!(!Progress { done: 0, total: 0 }.full());
    assert!(!Progress::none().full());
}

#[test]
fn tracker_announces() {
    let ts: Vec<String> = ["udp://a", "http://b", "https://c", "http://d"].iter().map(|s| s.to_string()).collect();
    assert_eq!(announce_targets(&ts), vec!["http://b".to_string(), "https://c".to_string()]);
    assert!(announce_targets(&vec![]).is_empty());
    assert_eq!(
        announce_url("http://t/announce", "abc"),
        "http://t/announce?info_hash=abc&peer_id=-FE0100-000000000000&port=6881&uploaded=0&downloaded=0&left=0&compact=1&event=started"
    );
    assert_eq!(tracker_peer_count(Some(3), Some(4)), 7);
    assert_eq!(tracker_peer_count(None, Some(4)), 4);
    assert_eq!(tracker_peer_count(None, None), 0);
    assert_eq!(announce_step(0, None), (0, false));
    assert_eq!(announce_step(0, Some(0)), (0, false));
    assert_eq!(announce_step(0, Some(5)), (5, true));
    assert_eq!(announce_step(u32::MAX, Some(5)), (u32::MAX, true));
}

#[test]
fn tracker_counts_checked_before_adding() {
    assert!(peer_count_in_range(Some(u32::MAX), None));
    assert!(peer_count_in_range(Some(u32::MAX - 5), Some(5)));
    assert!(!peer_count_in_range(Some(u32::MAX), Some(1)));
    assert!(peer_count_in_range(None, None));
}
