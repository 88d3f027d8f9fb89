//! The metadata of a `.torrent` file, once decoded from bencode, and its
//! info hash.

use vstd::prelude::*;
use sha1::Digest;
use vstd::string::StringExecFns;
use crate::models::{
    TorrentFile, TorrentFileView, FilePriority, Progress, string_views, file_views,
};

verus! {

/// One file entry of a multi-file torrent.
pub struct BencodeFile {
    pub length: u64,
    pub path: Vec<String>,
}

/// The value of a [`BencodeFile`].
pub struct BencodeFileView {
    pub length: u64,
    pub path: Seq<Seq<char>>,
}

impl View for BencodeFile {
    type V = BencodeFileView;

    open spec fn view(&self) -> BencodeFileView {
        BencodeFileView { length: self.length, path: string_views(self.path@) }
    }
}

/// The `info` dictionary of a torrent.
pub struct BencodeInfo {
    pub name: Option<String>,
    pub length: Option<u64>,
    pub files: Option<Vec<BencodeFile>>,
    pub pieces: Option<Vec<u8>>,
    pub piece_length: Option<u64>,
}

/// The decoded top-level dictionary of a `.torrent` file.
pub struct BencodeTorrent {
    pub info: BencodeInfo,
    pub announce: Option<String>,
    pub announce_list: Option<Vec<Vec<String>>>,
}

/// The values of a list of file entries.
pub open spec fn bencode_file_views(v: Seq<BencodeFile>) -> Seq<BencodeFileView> {
    v.map_values(|f: BencodeFile| f@)
}

/// The values of a list of tracker tiers.
pub open spec fn tier_views(v: Seq<Vec<String>>) -> Seq<Seq<Seq<char>>> {
    v.map_values(|t: Vec<String>| string_views(t@))
}

/// `parts` joined with `sep` between neighbours, as `join` does.
pub open spec fn join_with(parts: Seq<Seq<char>>, sep: Seq<char>) -> Seq<char>
    decreases parts.len(),
{
    if parts.len() == 0 {
        Seq::empty()
    } else if parts.len() == 1 {
        parts[0]
    } else {
        join_with(parts.drop_last(), sep) + sep + parts.last()
    }
}

/// `acc` extended by those of `urls`, in order, that it does not hold yet.
pub open spec fn add_unique(acc: Seq<Seq<char>>, urls: Seq<Seq<char>>) -> Seq<Seq<char>>
    decreases urls.len(),
{
    if urls.len() == 0 {
        acc
    } else {
        let prev = add_unique(acc, urls.drop_last());
        if prev.contains(urls.last()) {
            prev
        } else {
            prev.push(urls.last())
        }
    }
}

/// `acc` extended by the new URLs of each tier in turn.
pub open spec fn add_tiers(acc: Seq<Seq<char>>, tiers: Seq<Seq<Seq<char>>>) -> Seq<Seq<char>>
    decreases tiers.len(),
{
    if tiers.len() == 0 {
        acc
    } else {
        add_unique(add_tiers(acc, tiers.drop_last()), tiers.last())
    }
}

/// The trackers of a torrent: its `announce` URL, then every URL of its
/// `announce-list` not seen before.
pub open spec fn torrent_trackers(t: BencodeTorrent) -> Seq<Seq<char>> {
    let first: Seq<Seq<char>> = match t.announce {
        Some(a) => seq![a@],
        None => Seq::empty(),
    };
    match t.announce_list {
        Some(l) => add_tiers(first, tier_views(l@)),
        None => first,
    }
}

proof fn lemma_add_unique_distinct(acc: Seq<Seq<char>>, urls: Seq<Seq<char>>)
    requires
        acc.no_duplicates(),
    ensures
        add_unique(acc, urls).no_duplicates(),
    decreases urls.len(),
{
    if urls.len() > 0 {
        lemma_add_unique_distinct(acc, urls.drop_last());
        let prev = add_unique(acc, urls.drop_last());
        if !prev.contains(urls.last()) {
            let next = prev.push(urls.last());
            assert forall|a: int, b: int| 0 <= a < b < next.len() implies next[a] != next[b] by {
                if b == prev.len() {
                    assert(next[a] == prev[a]);
                }
            }
        }
    }
}

proof fn lemma_add_tiers_distinct(acc: Seq<Seq<char>>, tiers: Seq<Seq<Seq<char>>>)
    requires
        acc.no_duplicates(),
    ensures
        add_tiers(acc, tiers).no_duplicates(),
    decreases tiers.len(),
{
    if tiers.len() > 0 {
        lemma_add_tiers_distinct(acc, tiers.drop_last());
        lemma_add_unique_distinct(add_tiers(acc, tiers.drop_last()), tiers.last());
    }
}

/// No tracker URL is listed twice for a torrent, however often its
/// `announce-list` repeats it.
pub proof fn lemma_trackers_distinct(t: BencodeTorrent)
    ensures
        torrent_trackers(t).no_duplicates(),
{
    let first: Seq<Seq<char>> = match t.announce {
        Some(a) => seq![a@],
        None => Seq::empty(),
    };
    assert(first.no_duplicates());
    match t.announce_list {
        Some(l) => lemma_add_tiers_distinct(first, tier_views(l@)),
        None => {},
    }
}

/// The name of a torrent; "Unknown" when it gives none.
pub open spec fn torrent_name(t: BencodeTorrent) -> Seq<char> {
    match t.info.name {
        Some(n) => n@,
        None => "Unknown"@,
    }
}

/// The total length of a list of file entries.
pub open spec fn sum_lengths(files: Seq<BencodeFileView>) -> int
    decreases files.len(),
{
    if files.len() == 0 {
        0
    } else {
        sum_lengths(files.drop_last()) + files.last().length
    }
}

/// The size of a torrent: the sum of its files' lengths, or its single
/// `length` (0 when absent).
pub open spec fn torrent_size(t: BencodeTorrent) -> int {
    match t.info.files {
        Some(fs) => sum_lengths(bencode_file_views(fs@)),
        None => match t.info.length {
            Some(l) => l as int,
            None => 0,
        },
    }
}

/// A file of a multi-file torrent: named by the last component of its path,
/// at its path joined with `/`, nothing downloaded yet.
pub open spec fn file_entry(f: BencodeFileView) -> TorrentFileView {
    TorrentFileView {
        name: if f.path.len() > 0 { f.path.last() } else { Seq::empty() },
        path: join_with(f.path, "/"@),
        size: f.length,
        downloaded: 0,
        progress: Progress::none_spec(),
        priority: FilePriority::Normal,
    }
}

/// The files of a torrent; a single-file torrent has one file named and
/// placed after the torrent itself.
pub open spec fn torrent_files(t: BencodeTorrent) -> Seq<TorrentFileView> {
    match t.info.files {
        Some(fs) => bencode_file_views(fs@).map_values(|f: BencodeFileView| file_entry(f)),
        None => seq![TorrentFileView {
            name: torrent_name(t),
            path: torrent_name(t),
            size: match t.info.length { Some(l) => l, None => 0 },
            downloaded: 0,
            progress: Progress::none_spec(),
            priority: FilePriority::Normal,
        }],
    }
}

/// Whether the sizes of a torrent's files add up within `u64`.
pub open spec fn size_fits(t: BencodeTorrent) -> bool {
    torrent_size(t) <= u64::MAX
}

/// The bytes `4:info`, the bencoded key of the info dictionary.
pub open spec fn info_key() -> Seq<u8> {
    seq![52u8, 58u8, 105u8, 110u8, 102u8, 111u8]
}

/// Whether the info key starts at position `i` of `data`.
pub open spec fn info_key_at(data: Seq<u8>, i: int) -> bool {
    0 <= i && i + 6 <= data.len() && data.subrange(i, i + 6) == info_key()
}

/// Whether `i` is the first position at which the info key starts.
pub open spec fn is_first_info_key(data: Seq<u8>, i: int) -> bool {
    info_key_at(data, i) && forall|j: int| 0 <= j < i ==> !info_key_at(data, j)
}

/// The first position at which the info key starts, if it occurs.
pub open spec fn first_info_key(data: Seq<u8>) -> Option<int> {
    if exists|i: int| is_first_info_key(data, i) {
        Some(choose|i: int| is_first_info_key(data, i))
    } else {
        None
    }
}

/// Whether hashing `data` stays within bounds: after the first info key
/// there is at least one more byte.
pub open spec fn info_hash_input_ok(data: Seq<u8>) -> bool {
    match first_info_key(data) {
        Some(p) => p + 6 <= data.len() - 1,
        None => true,
    }
}

/// What the SHA-1 digest of a byte string is.
pub uninterp spec fn sha1(data: Seq<u8>) -> Seq<u8>;

/// The lowercase hexadecimal digit of `n < 16`.
pub open spec fn hex_digit_char(n: nat) -> char {
    if n < 10 {
        ((48 + n) as u8) as char
    } else {
        ((87 + n) as u8) as char
    }
}

/// Bytes in lowercase hexadecimal, two digits per byte.
pub open spec fn hex_lower(bytes: Seq<u8>) -> Seq<char>
    decreases bytes.len(),
{
    if bytes.len() == 0 {
        Seq::empty()
    } else {
        hex_lower(bytes.drop_last()) + seq![
            hex_digit_char((bytes.last() / 16) as nat),
            hex_digit_char((bytes.last() % 16) as nat),
        ]
    }
}

/// The info hash of a `.torrent` file: the SHA-1 of what follows the first
/// info key up to the last byte (excluded), in hexadecimal; forty zeros when
/// the key does not occur.
pub open spec fn info_hash_of(data: Seq<u8>) -> Seq<char> {
    match first_info_key(data) {
        Some(p) => hex_lower(sha1(data.subrange(p + 6, data.len() - 1))),
        None => "0000000000000000000000000000000000000000"@,
    }
}

/// Hexadecimal takes two digits per byte.
pub proof fn lemma_hex_lower_len(bytes: Seq<u8>)
    ensures
        hex_lower(bytes).len() == 2 * bytes.len(),
    decreases bytes.len(),
{
    if bytes.len() > 0 {
        lemma_hex_lower_len(bytes.drop_last());
    }
}

/// `Sha1::digest` of the `sha1` crate.
///
/// Claimed: the result is the SHA-1 digest of `data`, which depends on
/// `data` alone, and is twenty bytes long (the output size of `Sha1`).
#[verifier::external_body]
fn sha1_digest(data: &[u8]) -> (r: Vec<u8>)
    ensures
        r@ == sha1(data@),
        r@.len() == 20,
{
    sha1::Sha1::digest(data).to_vec()
}

/// `hex::encode` of the `hex` crate.
///
/// Claimed, as its documentation states: each byte becomes two lowercase
/// hexadecimal digits, in order.
#[verifier::external_body]
fn hex_encode(data: &[u8]) -> (r: String)
    ensures
        r@ == hex_lower(data@),
{
    hex::encode(data)
}

/// The first position at which the info key `4:info` starts in `data`.
pub fn info_key_position(data: &[u8]) -> (r: Option<usize>)
    ensures
        match r {
            Some(p) => first_info_key(data@) == Some(p as int) && is_first_info_key(data@, p as int),
            None => first_info_key(data@) is None,
        },
{
    let mut i: usize = 0;
    if data.len() < 6 {
        assert(forall|j: int| !info_key_at(data@, j));
        assert(!exists|j: int| is_first_info_key(data@, j));
        return None;
    }
    while i <= data.len() - 6
        invariant
            data.len() >= 6,
            i <= data.len() - 5,
            forall|j: int| 0 <= j < i ==> !info_key_at(data@, j),
        decreases data.len() - i,
    {
        if data[i] == 52u8 && data[i + 1] == 58u8 && data[i + 2] == 105u8 && data[i + 3] == 110u8
            && data[i + 4] == 102u8 && data[i + 5] == 111u8 {
            assert(data@.subrange(i as int, i + 6) =~= info_key());
            assert(is_first_info_key(data@, i as int));
            let ghost q = choose|j: int| is_first_info_key(data@, j);
            assert(q == i) by {
                if q < i {
                } else if q > i {
                    assert(!info_key_at(data@, i as int));
                }
            }
            return Some(i);
        }
        assert(!info_key_at(data@, i as int)) by {
            if info_key_at(data@, i as int) {
                assert(data@.subrange(i as int, i + 6)[0] == data@[i as int]);
                assert(data@.subrange(i as int, i + 6)[1] == data@[i + 1]);
                assert(data@.subrange(i as int, i + 6)[2] == data@[i + 2]);
                assert(data@.subrange(i as int, i + 6)[3] == data@[i + 3]);
                assert(data@.subrange(i as int, i + 6)[4] == data@[i + 4]);
                assert(data@.subrange(i as int, i + 6)[5] == data@[i + 5]);
            }
        }
        i = i + 1;
    }
    assert(forall|j: int| !info_key_at(data@, j));
    assert(!exists|j: int| is_first_info_key(data@, j));
    None
}

/// Why no info hash could be computed.
#[derive(Clone, Copy, Debug, PartialEq, Eq, Structural)]
pub enum InfoHashError {
    /// The data holds no `4:info` key.
    InfoKeyNotFound,
}

/// The info hash of a `.torrent` file: SHA-1 of the bytes after the first
/// `4:info` up to the last byte (excluded), in lowercase hexadecimal.
pub fn compute_info_hash(data: &[u8]) -> (r: Result<String, InfoHashError>)
    requires
        info_hash_input_ok(data@),
    ensures
        match r {
            Ok(h) => first_info_key(data@) is Some && h@ == info_hash_of(data@) && h@.len() == 40,
            Err(e) => first_info_key(data@) is None && e == InfoHashError::InfoKeyNotFound,
        },
{
    match info_key_position(data) {
        Some(p) => {
            assert(info_key_at(data@, p as int));
            let n = data.len();
            assert(p + 6 <= n - 1);
            let info_bytes = &data[p + 6..n - 1];
            let digest = sha1_digest(info_bytes);
            let h = hex_encode(digest.as_slice());
            proof {
                lemma_hex_lower_len(digest@);
            }
            Ok(h)
        },
        None => Err(InfoHashError::InfoKeyNotFound),
    }
}

/// Whether `v` holds a string equal to `s`.
pub fn contains_string(v: &Vec<String>, s: &String) -> (r: bool)
    ensures
        r == string_views(v@).contains(s@),
{
    let mut i: usize = 0;
    while i < v.len()
        invariant
            i <= v.len(),
            forall|j: int| 0 <= j < i ==> v@[j]@ != s@,
        decreases v.len() - i,
    {
        if v[i] == *s {
            assert(string_views(v@)[i as int] == s@);
            return true;
        }
        i = i + 1;
    }
    assert(!string_views(v@).contains(s@)) by {
        if string_views(v@).contains(s@) {
            let j = choose|j: int| 0 <= j < string_views(v@).len() && string_views(v@)[j] == s@;
            assert(v@[j]@ == s@);
        }
    }
    false
}

/// The strings of `parts` joined with `sep` between neighbours.
pub fn join_strings(parts: &Vec<String>, sep: &str) -> (r: String)
    ensures
        r@ == join_with(string_views(parts@), sep@),
{
    let ghost pv = string_views(parts@);
    let mut out = String::new();
    let mut i: usize = 0;
    while i < parts.len()
        invariant
            i <= parts.len(),
            pv == string_views(parts@),
            out@ == join_with(pv.take(i as int), sep@),
        decreases parts.len() - i,
    {
        assert(pv.take(i + 1).drop_last() == pv.take(i as int));
        assert(pv.take(i + 1).last() == parts@[i as int]@);
        if i > 0 {
            out.append(sep);
        } else {
            assert(pv.take(1)[0] == parts@[0]@);
        }
        out.append(parts[i].as_str());
        i = i + 1;
    }
    assert(pv.take(parts.len() as int) == pv);
    out
}

/// The trackers of a decoded torrent, without repeats among the
/// `announce-list` URLs.
fn collect_trackers(torrent: &BencodeTorrent) -> (r: Vec<String>)
    ensures
        string_views(r@) == torrent_trackers(*torrent),
{
    let mut trackers: Vec<String> = Vec::new();
    match &torrent.announce {
        Some(a) => {
            trackers.push(a.clone());
        },
        None => {},
    }
    let ghost first = string_views(trackers@);
    assert(first == match torrent.announce { Some(a) => seq![a@], None => Seq::<Seq<char>>::empty() });
    match &torrent.announce_list {
        Some(list) => {
            let ghost tv = tier_views(list@);
            let mut i: usize = 0;
            while i < list.len()
                invariant
                    i <= list.len(),
                    tv == tier_views(list@),
                    string_views(trackers@) == add_tiers(first, tv.take(i as int)),
                decreases list.len() - i,
            {
                let tier = &list[i];
                let ghost base = string_views(trackers@);
                let ghost uv = string_views(tier@);
                assert(tv.take(i + 1).drop_last() == tv.take(i as int));
                assert(tv.take(i + 1).last() == uv);
                let mut j: usize = 0;
                while j < tier.len()
                    invariant
                        j <= tier.len(),
                        uv == string_views(tier@),
                        string_views(trackers@) == add_unique(base, uv.take(j as int)),
                    decreases tier.len() - j,
                {
                    let url = &tier[j];
                    assert(uv.take(j + 1).drop_last() == uv.take(j as int));
                    assert(uv.take(j + 1).last() == url@);
                    if !contains_string(&trackers, url) {
                        let ghost before = trackers@;
                        trackers.push(url.clone());
                        assert(string_views(trackers@) =~= string_views(before).push(url@));
                    }
                    j = j + 1;
                }
                assert(uv.take(tier.len() as int) == uv);
                i = i + 1;
            }
            assert(tv.take(list.len() as int) == tv);
        },
        None => {},
    }
    trackers
}

/// The file list and total size of a decoded torrent.
fn collect_files(torrent: &BencodeTorrent, name: &String) -> (r: (u64, Vec<TorrentFile>))
    requires
        size_fits(*torrent),
        name@ == torrent_name(*torrent),
    ensures
        r.0 == torrent_size(*torrent),
        file_views(r.1@) == torrent_files(*torrent),
{
    match &torrent.info.files {
        Some(list) => {
            let ghost fv = bencode_file_views(list@);
            let mut total: u64 = 0;
            let mut files: Vec<TorrentFile> = Vec::new();
            let mut i: usize = 0;
            while i < list.len()
                invariant
                    i <= list.len(),
                    fv == bencode_file_views(list@),
                    sum_lengths(fv) <= u64::MAX,
                    total == sum_lengths(fv.take(i as int)),
                    file_views(files@) == fv.take(i as int).map_values(|f: BencodeFileView| file_entry(f)),
                decreases list.len() - i,
            {
                let f = &list[i];
                assert(fv.take(i + 1).drop_last() == fv.take(i as int));
                assert(fv.take(i + 1).last() == f@);
                proof {
                    lemma_sum_lengths_prefix(fv, i + 1);
                }
                total = total + f.length;
                let fname = if f.path.len() > 0 { f.path[f.path.len() - 1].clone() } else { String::new() };
                let entry = TorrentFile {
                    name: fname,
                    path: join_strings(&f.path, "/"),
                    size: f.length,
                    downloaded: 0,
                    progress: Progress::none(),
                    priority: FilePriority::Normal,
                };
                proof {
                    if f.path@.len() > 0 {
                        assert(f@.path.last() == f.path@[f.path@.len() - 1]@);
                    }
                }
                assert(entry@ == file_entry(f@));
                let ghost before = files@;
                files.push(entry);
                assert(file_views(files@) =~= file_views(before).push(file_entry(f@)));
                assert(file_views(files@) =~= fv.take(i + 1).map_values(|f: BencodeFileView| file_entry(f)));
                i = i + 1;
            }
            assert(fv.take(list.len() as int) == fv);
            (total, files)
        },
        None => {
            let len = match torrent.info.length {
                Some(l) => l,
                None => 0,
            };
            let file = TorrentFile {
                name: name.clone(),
                path: name.clone(),
                size: len,
                downloaded: 0,
                progress: Progress::none(),
                priority: FilePriority::Normal,
            };
            let mut files: Vec<TorrentFile> = Vec::new();
            files.push(file);
            assert(file_views(files@) =~= torrent_files(*torrent));
            (len, files)
        },
    }
}

proof fn lemma_sum_lengths_prefix(fv: Seq<BencodeFileView>, k: int)
    requires
        0 <= k <= fv.len(),
    ensures
        sum_lengths(fv.take(k)) <= sum_lengths(fv),
    decreases fv.len() - k,
{
    if k < fv.len() {
        lemma_sum_lengths_prefix(fv, k + 1);
        assert(fv.take(k + 1).drop_last() == fv.take(k));
    } else {
        assert(fv.take(k) == fv);
    }
}

/// The total length of some file entries is never negative.
pub proof fn lemma_sum_lengths_nonneg(files: Seq<BencodeFileView>)
    ensures
        0 <= sum_lengths(files),
    decreases files.len(),
{
    if files.len() > 0 {
        lemma_sum_lengths_nonneg(files.drop_last());
    }
}

/// The size of a torrent whose sizes add up within `u64` is a `u64` value.
pub proof fn lemma_torrent_size_fits(t: BencodeTorrent)
    requires
        size_fits(t),
    ensures
        0 <= torrent_size(t) <= u64::MAX,
        (torrent_size(t) as u64) as int == torrent_size(t),
{
    match t.info.files {
        Some(fs) => lemma_sum_lengths_nonneg(bencode_file_views(fs@)),
        None => {},
    }
}

/// Whether the file sizes of a decoded torrent add up within `u64`.
pub fn size_in_range(torrent: &BencodeTorrent) -> (r: bool)
    ensures
        r == size_fits(*torrent),
{
    match &torrent.info.files {
        Some(list) => {
            let ghost fv = bencode_file_views(list@);
            let mut total: u64 = 0;
            let mut i: usize = 0;
            while i < list.len()
                invariant
                    i <= list.len(),
                    fv == bencode_file_views(list@),
                    torrent_size(*torrent) == sum_lengths(fv),
                    total == sum_lengths(fv.take(i as int)),
                decreases list.len() - i,
            {
                assert(fv.take(i + 1).drop_last() == fv.take(i as int));
                assert(fv.take(i + 1).last() == list@[i as int]@);
                assert(sum_lengths(fv.take(i + 1)) == total + list@[i as int].length);
                match total.checked_add(list[i].length) {
                    Some(t) => {
                        total = t;
                    },
                    None => {
                        proof {
                            lemma_sum_lengths_prefix(fv, i + 1);
                        }
                        return false;
                    },
                }
                i = i + 1;
            }
            assert(fv.take(list.len() as int) == fv);
            true
        },
        None => true,
    }
}

/// Whether the info hash of `data` can be computed within bounds: after the
/// first info key, if any, there is at least one more byte.
pub fn info_hash_input_in_range(data: &[u8]) -> (r: bool)
    ensures
        r == info_hash_input_ok(data@),
{
    match info_key_position(data) {
        Some(p) => {
            assert(info_key_at(data@, p as int));
            p < data.len() && data.len() - p > 6
        },
        None => true,
    }
}

/// Reads what the engine needs from a decoded `.torrent` file: its info
/// hash, name, total size, files and trackers.
pub fn parse_torrent_file(data: &[u8], torrent: &BencodeTorrent) -> (r: (String, String, u64, Vec<TorrentFile>, Vec<String>))
    requires
        info_hash_input_ok(data@),
        size_fits(*torrent),
    ensures
        r.0@ == info_hash_of(data@),
        r.0@.len() == 40,
        r.1@ == torrent_name(*torrent),
        r.2 == torrent_size(*torrent),
        file_views(r.3@) == torrent_files(*torrent),
        string_views(r.4@) == torrent_trackers(*torrent),
{
    let info_hash = match compute_info_hash(data) {
        Ok(h) => h,
        Err(_) => {
            proof {
                reveal_strlit("0000000000000000000000000000000000000000");
            }
            "0000000000000000000000000000000000000000".to_owned()
        },
    };
    let name = match &torrent.info.name {
        Some(n) => n.clone(),
        None => "Unknown".to_owned(),
    };
    let trackers = collect_trackers(torrent);
    let (size, files) = collect_files(torrent, &name);
    (info_hash, name, size, files, trackers)
}

} // verus!
