//! The stored settings of the application and the engine configuration they
//! give, plus the default places where data lives.

use vstd::prelude::*;
use vstd::string::StringExecFns;
use crate::models::EngineConfig;
use crate::text::{str_eq, parse_bounded, parse_unsigned, all_digits, digits_value};

verus! {

/// The values of stored `(key, value)` settings rows.
pub open spec fn row_views(rows: Seq<(String, String)>) -> Seq<(Seq<char>, Seq<char>)> {
    rows.map_values(|r: (String, String)| (r.0@, r.1@))
}

/// The value stored under `key`; when the key occurs more than once, the
/// last row wins, as when the rows are collected into a map.
pub open spec fn lookup(rows: Seq<(Seq<char>, Seq<char>)>, key: Seq<char>) -> Option<Seq<char>>
    decreases rows.len(),
{
    if rows.len() == 0 {
        None
    } else if rows.last().0 == key {
        Some(rows.last().1)
    } else {
        lookup(rows.drop_last(), key)
    }
}

/// A switch setting: on exactly when its stored value is "true"; `def`
/// when it is not stored.
pub open spec fn setting_bool(rows: Seq<(Seq<char>, Seq<char>)>, key: Seq<char>, def: bool) -> bool {
    match lookup(rows, key) {
        Some(v) => v == "true"@,
        None => def,
    }
}

/// A number setting of a type whose largest value is `max`: the stored
/// value when it parses as such a number, `def` otherwise.
pub open spec fn setting_num(rows: Seq<(Seq<char>, Seq<char>)>, key: Seq<char>, def: nat, max: nat) -> nat {
    match lookup(rows, key) {
        Some(v) => match parse_unsigned(v, max) {
            Some(n) => n,
            None => def,
        },
        None => def,
    }
}

/// Whether the throttles and the buffer size, once scaled to bytes, fit in
/// `u64`.
pub open spec fn settings_fit(rows: Seq<(Seq<char>, Seq<char>)>) -> bool {
    &&& setting_num(rows, "max_upload_speed_kbps"@, 0, u64::MAX as nat) * 1024 <= u64::MAX
    &&& setting_num(rows, "max_download_speed_kbps"@, 0, u64::MAX as nat) * 1024 <= u64::MAX
    &&& setting_num(rows, "write_buffer_mb"@, 4, u64::MAX as nat) * 1024 * 1024 <= u64::MAX
}

/// The engine configuration the stored settings give: speeds are stored
/// in KiB/s and the write buffer in MiB; a missing or unreadable setting
/// takes its default.
pub open spec fn config_from_settings(rows: Seq<(Seq<char>, Seq<char>)>) -> EngineConfig {
    EngineConfig {
        max_connections_per_torrent: setting_num(rows, "max_connections_per_torrent"@, 80, u32::MAX as nat) as u32,
        max_total_connections: setting_num(rows, "max_total_connections"@, 500, u32::MAX as nat) as u32,
        dht_enabled: setting_bool(rows, "dht_enabled"@, true),
        pex_enabled: setting_bool(rows, "pex_enabled"@, true),
        lsd_enabled: setting_bool(rows, "lsd_enabled"@, true),
        max_upload_bps: (setting_num(rows, "max_upload_speed_kbps"@, 0, u64::MAX as nat) * 1024) as u64,
        max_download_bps: (setting_num(rows, "max_download_speed_kbps"@, 0, u64::MAX as nat) * 1024) as u64,
        write_buffer_bytes: (setting_num(rows, "write_buffer_mb"@, 4, u64::MAX as nat) * 1024 * 1024) as u64,
        utp_enabled: setting_bool(rows, "utp_enabled"@, true),
    }
}

fn find_setting<'a>(rows: &'a Vec<(String, String)>, key: &str) -> (r: Option<&'a String>)
    ensures
        match r {
            Some(v) => lookup(row_views(rows@), key@) == Some(v@),
            None => lookup(row_views(rows@), key@) is None,
        },
{
    let ghost rv = row_views(rows@);
    let mut i: usize = rows.len();
    assert(rv.take(rows@.len() as int) == rv);
    while i > 0
        invariant
            i <= rows@.len(),
            rv == row_views(rows@),
            lookup(rv, key@) == lookup(rv.take(i as int), key@),
        decreases i,
    {
        assert(rv.take(i as int).drop_last() == rv.take(i - 1));
        assert(rv.take(i as int).last() == rv[i - 1]);
        if str_eq(rows[i - 1].0.as_str(), key) {
            return Some(&rows[i - 1].1);
        }
        i = i - 1;
    }
    assert(rv.take(0) == Seq::<(Seq<char>, Seq<char>)>::empty());
    None
}

fn get_bool(rows: &Vec<(String, String)>, key: &str, def: bool) -> (r: bool)
    ensures
        r == setting_bool(row_views(rows@), key@, def),
{
    match find_setting(rows, key) {
        Some(v) => str_eq(v.as_str(), "true"),
        None => def,
    }
}

fn get_num(rows: &Vec<(String, String)>, key: &str, def: u64, max: u64) -> (r: u64)
    requires
        def <= max,
    ensures
        r == setting_num(row_views(rows@), key@, def as nat, max as nat),
        r <= max,
{
    match find_setting(rows, key) {
        Some(v) => match parse_bounded(v.as_str(), max) {
            Some(n) => n,
            None => def,
        },
        None => def,
    }
}

/// Whether the stored settings can be turned into an engine configuration
/// without overflow.
pub fn settings_in_range(rows: &Vec<(String, String)>) -> (r: bool)
    ensures
        r == settings_fit(row_views(rows@)),
{
    let up = get_num(rows, "max_upload_speed_kbps", 0, u64::MAX);
    let down = get_num(rows, "max_download_speed_kbps", 0, u64::MAX);
    let buf = get_num(rows, "write_buffer_mb", 4, u64::MAX);
    up <= 18014398509481983 && down <= 18014398509481983 && buf <= 17592186044415
}

/// The engine configuration the stored settings give.
pub fn engine_config_from_settings(rows: &Vec<(String, String)>) -> (cfg: EngineConfig)
    requires
        settings_fit(row_views(rows@)),
    ensures
        cfg == config_from_settings(row_views(rows@)),
        cfg.max_upload_bps == setting_num(row_views(rows@), "max_upload_speed_kbps"@, 0, u64::MAX as nat) * 1024,
        cfg.max_download_bps == setting_num(row_views(rows@), "max_download_speed_kbps"@, 0, u64::MAX as nat) * 1024,
        cfg.write_buffer_bytes == setting_num(row_views(rows@), "write_buffer_mb"@, 4, u64::MAX as nat) * 1024 * 1024,
{
    EngineConfig {
        max_connections_per_torrent: get_num(rows, "max_connections_per_torrent", 80, u32::MAX as u64) as u32,
        max_total_connections: get_num(rows, "max_total_connections", 500, u32::MAX as u64) as u32,
        dht_enabled: get_bool(rows, "dht_enabled", true),
        pex_enabled: get_bool(rows, "pex_enabled", true),
        lsd_enabled: get_bool(rows, "lsd_enabled", true),
        max_upload_bps: get_num(rows, "max_upload_speed_kbps", 0, u64::MAX) * 1024,
        max_download_bps: get_num(rows, "max_download_speed_kbps", 0, u64::MAX) * 1024,
        write_buffer_bytes: get_num(rows, "write_buffer_mb", 4, u64::MAX) * 1024 * 1024,
        utp_enabled: get_bool(rows, "utp_enabled", true),
    }
}

/// Speeds are stored in KiB/s and the buffer in MiB: a stored number `n`
/// gives `n * 1024` bytes per second for either throttle and `n * 1024 *
/// 1024` bytes of write buffer; a missing or unreadable value gives no
/// throttle and a 4 MiB buffer.
pub proof fn lemma_settings_scale_to_bytes(rows: Seq<(Seq<char>, Seq<char>)>)
    requires
        settings_fit(rows),
    ensures
        lookup(rows, "max_download_speed_kbps"@) matches Some(v) ==> (parse_unsigned(v, u64::MAX as nat) matches Some(n)
            ==> config_from_settings(rows).max_download_bps == n * 1024),
        lookup(rows, "max_upload_speed_kbps"@) matches Some(v) ==> (parse_unsigned(v, u64::MAX as nat) matches Some(n)
            ==> config_from_settings(rows).max_upload_bps == n * 1024),
        lookup(rows, "write_buffer_mb"@) matches Some(v) ==> (parse_unsigned(v, u64::MAX as nat) matches Some(n)
            ==> config_from_settings(rows).write_buffer_bytes == n * 1024 * 1024),
        lookup(rows, "max_download_speed_kbps"@) is None ==> config_from_settings(rows).max_download_bps == 0,
        lookup(rows, "max_upload_speed_kbps"@) is None ==> config_from_settings(rows).max_upload_bps == 0,
        lookup(rows, "write_buffer_mb"@) is None ==> config_from_settings(rows).write_buffer_bytes == 4 * 1024 * 1024,
{
}

/// Without any stored setting the engine runs with its default
/// configuration.
pub proof fn lemma_no_settings_give_default_config()
    ensures
        config_from_settings(Seq::empty()) == EngineConfig::default_spec(),
{
    assert(1048576 * 4 == 4194304);
}

/// The settings a new database starts with, the default download folder
/// being `download_path`.
pub open spec fn default_settings_spec(download_path: Seq<char>) -> Seq<(Seq<char>, Seq<char>)> {
    seq![
        ("download_path"@, download_path),
        ("max_download_speed_kbps"@, "0"@),
        ("max_upload_speed_kbps"@, "0"@),
        ("listen_port"@, "6881"@),
        ("dht_enabled"@, "true"@),
        ("pex_enabled"@, "true"@),
        ("lsd_enabled"@, "true"@),
        ("max_connections_per_torrent"@, "80"@),
        ("max_total_connections"@, "500"@),
        ("write_buffer_mb"@, "4"@),
        ("utp_enabled"@, "true"@),
        ("schedule_enabled"@, "false"@),
        ("schedule_start"@, "08:00"@),
        ("schedule_end"@, "22:00"@),
        ("ollama_url"@, "http://localhost:11434"@),
        ("ollama_model"@, "llama3"@),
        ("ai_enabled"@, "true"@),
        ("theme"@, "dark"@),
    ]
}

fn pair(k: &str, v: &str) -> (r: (String, String))
    ensures
        r.0@ == k@,
        r.1@ == v@,
{
    (k.to_owned(), v.to_owned())
}

/// The settings a new database starts with.
pub fn default_settings(download_path: &str) -> (rows: Vec<(String, String)>)
    ensures
        row_views(rows@) == default_settings_spec(download_path@),
{
    let mut rows: Vec<(String, String)> = Vec::new();
    rows.push(pair("download_path", download_path));
    rows.push(pair("max_download_speed_kbps", "0"));
    rows.push(pair("max_upload_speed_kbps", "0"));
    rows.push(pair("listen_port", "6881"));
    rows.push(pair("dht_enabled", "true"));
    rows.push(pair("pex_enabled", "true"));
    rows.push(pair("lsd_enabled", "true"));
    rows.push(pair("max_connections_per_torrent", "80"));
    rows.push(pair("max_total_connections", "500"));
    rows.push(pair("write_buffer_mb", "4"));
    rows.push(pair("utp_enabled", "true"));
    rows.push(pair("schedule_enabled", "false"));
    rows.push(pair("schedule_start", "08:00"));
    rows.push(pair("schedule_end", "22:00"));
    rows.push(pair("ollama_url", "http://localhost:11434"));
    rows.push(pair("ollama_model", "llama3"));
    rows.push(pair("ai_enabled", "true"));
    rows.push(pair("theme", "dark"));
    assert(row_views(rows@) =~= default_settings_spec(download_path@));
    rows
}

proof fn lemma_default_lookups(p: Seq<char>)
    ensures
        lookup(default_settings_spec(p), "max_connections_per_torrent"@) == Some("80"@),
        lookup(default_settings_spec(p), "max_total_connections"@) == Some("500"@),
        lookup(default_settings_spec(p), "dht_enabled"@) == Some("true"@),
        lookup(default_settings_spec(p), "pex_enabled"@) == Some("true"@),
        lookup(default_settings_spec(p), "lsd_enabled"@) == Some("true"@),
        lookup(default_settings_spec(p), "max_upload_speed_kbps"@) == Some("0"@),
        lookup(default_settings_spec(p), "max_download_speed_kbps"@) == Some("0"@),
        lookup(default_settings_spec(p), "write_buffer_mb"@) == Some("4"@),
        lookup(default_settings_spec(p), "utp_enabled"@) == Some("true"@),
{
    reveal_strlit("download_path");
    reveal_strlit("max_download_speed_kbps");
    reveal_strlit("max_upload_speed_kbps");
    reveal_strlit("listen_port");
    reveal_strlit("dht_enabled");
    reveal_strlit("pex_enabled");
    reveal_strlit("lsd_enabled");
    reveal_strlit("max_connections_per_torrent");
    reveal_strlit("max_total_connections");
    reveal_strlit("write_buffer_mb");
    reveal_strlit("utp_enabled");
    reveal_strlit("schedule_enabled");
    reveal_strlit("schedule_start");
    reveal_strlit("schedule_end");
    reveal_strlit("ollama_url");
    reveal_strlit("ollama_model");
    reveal_strlit("ai_enabled");
    reveal_strlit("theme");
    let d = default_settings_spec(p);
    assert("download_path"@.len() == 13);
    assert("max_download_speed_kbps"@.len() == 23);
    assert("max_upload_speed_kbps"@.len() == 21);
    assert("listen_port"@.len() == 11 && "listen_port"@[0] == 'l' && "listen_port"@[1] == 'i');
    assert("dht_enabled"@.len() == 11 && "dht_enabled"@[0] == 'd');
    assert("pex_enabled"@.len() == 11 && "pex_enabled"@[0] == 'p');
    assert("lsd_enabled"@.len() == 11 && "lsd_enabled"@[0] == 'l' && "lsd_enabled"@[1] == 's');
    assert("max_connections_per_torrent"@.len() == 27);
    assert("max_total_connections"@.len() == 21 && "max_total_connections"@[4] == 't');
    assert("max_upload_speed_kbps"@[4] == 'u');
    assert("write_buffer_mb"@.len() == 15);
    assert("utp_enabled"@.len() == 11 && "utp_enabled"@[0] == 'u');
    assert("schedule_enabled"@.len() == 16);
    assert("schedule_start"@.len() == 14);
    assert("schedule_end"@.len() == 12 && "schedule_end"@[0] == 's');
    assert("ollama_url"@.len() == 10);
    assert("ollama_model"@.len() == 12 && "ollama_model"@[0] == 'o');
    assert("ai_enabled"@.len() == 10 && "ai_enabled"@[0] == 'a');
    assert("theme"@.len() == 5);
    assert(d.len() == 18);
    reveal_with_fuel(lookup, 19);
}

proof fn lemma_parse_small()
    ensures
        parse_unsigned("80"@, u32::MAX as nat) == Some(80nat),
        parse_unsigned("500"@, u32::MAX as nat) == Some(500nat),
        parse_unsigned("0"@, u64::MAX as nat) == Some(0nat),
        parse_unsigned("4"@, u64::MAX as nat) == Some(4nat),
{
    reveal_strlit("80");
    reveal_strlit("500");
    reveal_strlit("0");
    reveal_strlit("4");
    reveal_with_fuel(digits_value, 4);
    let a = "80"@;
    assert(a.len() == 2 && a[0] == '8' && a[1] == '0');
    assert(a.drop_last().len() == 1 && a.drop_last()[0] == '8');
    assert(a.drop_last().drop_last().len() == 0);
    assert(all_digits(a));
    let b = "500"@;
    assert(b.len() == 3 && b[0] == '5' && b[1] == '0' && b[2] == '0');
    assert(b.drop_last().len() == 2 && b.drop_last()[0] == '5' && b.drop_last()[1] == '0');
    assert(b.drop_last().drop_last().len() == 1 && b.drop_last().drop_last()[0] == '5');
    assert(b.drop_last().drop_last().drop_last().len() == 0);
    assert(all_digits(b));
    let c = "0"@;
    assert(c.len() == 1 && c[0] == '0');
    assert(c.drop_last().len() == 0);
    assert(all_digits(c));
    let e = "4"@;
    assert(e.len() == 1 && e[0] == '4');
    assert(e.drop_last().len() == 0);
    assert(all_digits(e));
}

/// The settings a new database starts with give the engine its default
/// configuration: the stored defaults and the engine's defaults agree.
pub proof fn lemma_default_settings_give_default_config(download_path: Seq<char>)
    ensures
        config_from_settings(default_settings_spec(download_path)) == EngineConfig::default_spec(),
{
    lemma_default_lookups(download_path);
    lemma_parse_small();
    assert(1048576 * 4 == 4194304);
}

/// The home folder: `HOME`, else `USERPROFILE`, else the current folder.
pub open spec fn home_from(home: Option<Seq<char>>, userprofile: Option<Seq<char>>) -> Seq<char> {
    match home {
        Some(h) => h,
        None => match userprofile {
            Some(u) => u,
            None => "."@,
        },
    }
}

/// The home folder from the `HOME` and `USERPROFILE` variables, when set.
pub fn resolve_home(home: Option<String>, userprofile: Option<String>) -> (r: String)
    ensures
        r@ == home_from(crate::models::opt_view(home), crate::models::opt_view(userprofile)),
{
    match home {
        Some(h) => h,
        None => match userprofile {
            Some(u) => u,
            None => ".".to_owned(),
        },
    }
}

/// The default download folder: `Downloads/Ferroload` beside the data
/// folder when one is configured (`data_dir/../Downloads/Ferroload`), else
/// `Downloads/Ferroload` in the home folder.
pub open spec fn default_download_spec(configured_data_dir: Option<Seq<char>>, home: Seq<char>) -> Seq<char> {
    match configured_data_dir {
        Some(d) => d + "/../Downloads/Ferroload"@,
        None => home + "/Downloads/Ferroload"@,
    }
}

/// The default download folder, given the configured data folder (if any)
/// and the home folder.
pub fn default_download_path(configured_data_dir: &Option<String>, home: &str) -> (r: String)
    ensures
        r@ == default_download_spec(crate::models::opt_view(*configured_data_dir), home@),
{
    match configured_data_dir {
        Some(d) => {
            let mut r = d.clone();
            r.append("/../Downloads/Ferroload");
            r
        },
        None => {
            let mut r = home.to_owned();
            r.append("/Downloads/Ferroload");
            r
        },
    }
}

/// The data folder: the one configured, else `.ferroload` in the home
/// folder.
pub fn default_data_dir(configured: Option<String>, home: &str) -> (r: String)
    ensures
        r@ == match configured {
            Some(c) => c@,
            None => home@ + "/.ferroload"@,
        },
{
    match configured {
        Some(c) => c,
        None => {
            let mut r = home.to_owned();
            r.append("/.ferroload");
            r
        },
    }
}

/// The port of the web interface: the configured one when it reads as a
/// port number, else 7070.
pub fn listen_port(configured: Option<String>) -> (port: u16)
    ensures
        port == match configured {
            Some(c) => match parse_unsigned(c@, 65535) {
                Some(p) => p,
                None => 7070,
            },
            None => 7070,
        },
{
    match configured {
        Some(c) => match parse_bounded(c.as_str(), 65535) {
            Some(p) => p as u16,
            None => 7070,
        },
        None => 7070,
    }
}

} // verus!
