use ferroload::magnet::{parse_magnet, urlencoding_decode, MagnetError};

#[test]
fn url_decoding() {
    assert_eq!(urlencoding_decode("hello+world%21"), "hello world!");
    assert_eq!(urlencoding_decode("plain"), "plain");
    assert_eq!(urlencoding_decode("a%2Fb%2fc"), "a/b/c");
    assert_eq!(urlencoding_decode("%zzok"), "ok");
    assert_eq!(urlencoding_decode("%4"), "@");
    assert_eq!(urlencoding_decode("%"), "\u{0}");
    assert_eq!(urlencoding_decode("%E9"), "\u{e9}");
    assert_eq!(urlencoding_decode("%+1"), "");
    assert_eq!(urlencoding_decode(""), "");
}

#[test]
fn magnet_with_all_fields() {
    let link = "magnet:?xt=urn:btih:ABCDEF0123&dn=Ubuntu+24.04%20LTS&tr=udp%3A%2F%2Ftracker.example%3A80&tr=http%3A%2F%2Ft.example%2Fannounce";
    let (hash, name, trackers) = parse_magnet(link).unwrap();
    assert_eq!(hash, "abcdef0123");
    assert_eq!(name, "Ubuntu 24.04 LTS");
    assert_eq!(trackers, vec!["udp://tracker.example:80", "http://t.example/announce"]);
}

#[test]
fn magnet_defaults_and_overrides() {
    let (hash, name, trackers) = parse_magnet("magnet:?xt=urn:btih:AA&xt=urn:btih:Bb").unwrap();
    assert_eq!(hash, "bb");
    assert_eq!(name, "Unknown");
    assert!(trackers.is_empty());
    let (hash, name, _) = parse_magnet("dn=first&xt=urn:btih:CC&dn=second").unwrap();
    assert_eq!(hash, "cc");
    assert_eq!(name, "second");
}

#[test]
fn magnet_without_hash_is_refused() {
    assert_eq!(parse_magnet("magnet:?dn=x&tr=http%3A%2F%2Fa"), Err(MagnetError::MissingInfoHash));
    assert_eq!(parse_magnet(""), Err(MagnetError::MissingInfoHash));
    assert_eq!(parse_magnet("magnet:?xt=urn:btih:"), Err(MagnetError::MissingInfoHash));
    assert_eq!(parse_magnet("magnet:?xt=urn:btih:AA&xt=urn:btih:"), Err(MagnetError::MissingInfoHash));
    // the topic must start its part
    assert_eq!(parse_magnet("magnet:?dn=a&axt=urn:btih:ff"), Err(MagnetError::MissingInfoHash));
}
