use ferroload::torrent_file::{
    BencodeTorrent, BencodeInfo, BencodeFile, parse_torrent_file, compute_info_hash, info_key_position,
    InfoHashError, size_in_range, info_hash_input_in_range,
};
use ferroload::models::FilePriority;

fn info(name: Option<&str>, length: Option<u64>, files: Option<Vec<BencodeFile>>) -> BencodeInfo {
    BencodeInfo {
        name: name.map(|s| s.to_string()),
        length,
        files,
        pieces: None,
        piece_length: None,
    }
}

fn strings(v: &[&str]) -> Vec<String> {
    v.iter().map(|s| s.to_string()).collect()
}

#[test]
fn info_hash_of_torrent_bytes() {
    let data = b"d4:infod6:lengthi1eee";
    assert_eq!(info_key_position(data), Some(1));
    assert_eq!(compute_info_hash(data).unwrap(), "d2f238edc9005ee74e8062a1b089866dabf82e2b");
    assert_eq!(compute_info_hash(b"d3:fooi1ee"), Err(InfoHashError::InfoKeyNotFound));
    assert_eq!(info_key_position(b"4:inf"), None);
}

#[test]
fn single_file_torrent() {
    let data = b"d4:infod4:name3:abc6:lengthi10eee".to_vec();
    let t = BencodeTorrent {
        info: info(Some("abc"), Some(10), None),
        announce: Some("http://a/announce".to_string()),
        announce_list: None,
    };
    let (hash, name, size, files, trackers) = parse_torrent_file(&data, &t);
    assert_eq!(hash, "de7d35d0a423ab9dffaba8bb1e2fb1b3e6873eb3");
    assert_eq!(name, "abc");
    assert_eq!(size, 10);
    assert_eq!(files.len(), 1);
    assert_eq!(files[0].name, "abc");
    assert_eq!(files[0].path, "abc");
    assert_eq!(files[0].size, 10);
    assert_eq!(files[0].downloaded, 0);
    assert_eq!(files[0].priority, FilePriority::Normal);
    assert_eq!(trackers, strings(&["http://a/announce"]));
}

#[test]
fn multi_file_torrent_with_tiers() {
    let t = BencodeTorrent {
        info: info(
            None,
            None,
            Some(vec![
                BencodeFile { length: 5, path: strings(&["dir", "sub", "a.txt"]) },
                BencodeFile { length: 7, path: strings(&["b.txt"]) },
                BencodeFile { length: 1, path: vec![] },
            ]),
        ),
        announce: Some("http://a".to_string()),
        announce_list: Some(vec![strings(&["http://a", "http://b"]), strings(&["udp://c", "http://b"])]),
    };
    let (hash, name, size, files, trackers) = parse_torrent_file(b"no key here", &t);
    assert_eq!(hash, "0000000000000000000000000000000000000000");
    assert_eq!(name, "Unknown");
    assert_eq!(size, 13);
    assert_eq!(files.len(), 3);
    assert_eq!(files[0].name, "a.txt");
    assert_eq!(files[0].path, "dir/sub/a.txt");
    assert_eq!(files[1].name, "b.txt");
    assert_eq!(files[1].path, "b.txt");
    assert_eq!(files[2].name, "");
    assert_eq!(files[2].path, "");
    assert_eq!(files[2].size, 1);
    assert_eq!(trackers, strings(&["http://a", "http://b", "udp://c"]));
}

#[test]
fn torrent_without_announce() {
    let t = BencodeTorrent {
        info: info(Some("x"), None, None),
        announce: None,
        announce_list: Some(vec![strings(&["u1", "u1"]), vec![]]),
    };
    let (_, _, size, files, trackers) = parse_torrent_file(b"", &t);
    assert_eq!(size, 0);
    assert_eq!(files[0].size, 0);
    assert_eq!(trackers, strings(&["u1"]));
}

#[test]
fn input_checks_before_parsing() {
    assert!(info_hash_input_in_range(b"d4:infod4:name1:aee"));
    assert!(info_hash_input_in_range(b"no key"));
    assert!(!info_hash_input_in_range(b"xx4:info"));
    assert!(info_hash_input_in_range(b"xx4:infoe"));
    let fits = BencodeTorrent {
        info: info(Some("a"), None, Some(vec![
            BencodeFile { length: u64::MAX - 1, path: vec!["x".to_string()] },
            BencodeFile { length: 1, path: vec!["y".to_string()] },
        ])),
        announce: None,
        announce_list: None,
    };
    assert!(size_in_range(&fits));
    let too_big = BencodeTorrent {
        info: info(Some("a"), None, Some(vec![
            BencodeFile { length: u64::MAX, path: vec!["x".to_string()] },
            BencodeFile { length: 1, path: vec!["y".to_string()] },
        ])),
        announce: None,
        announce_list: None,
    };
    assert!(!size_in_range(&too_big));
    let single = BencodeTorrent { info: info(Some("a"), Some(u64::MAX), None), announce: None, announce_list: None };
    assert!(size_in_range(&single));
}
