//! Announcing a torrent to its HTTP trackers.

use vstd::prelude::*;
use vstd::string::StringExecFns;
use crate::models::string_views;
use crate::text::{chars_of, has_prefix};

verus! {

/// Whether a tracker URL is served over HTTP or HTTPS.
pub open spec fn is_http_url(s: Seq<char>) -> bool {
    "http://"@.is_prefix_of(s) || "https://"@.is_prefix_of(s)
}

/// The HTTP(S) URLs among `urls`, in order.
pub open spec fn http_only(urls: Seq<Seq<char>>) -> Seq<Seq<char>>
    decreases urls.len(),
{
    if urls.len() == 0 {
        Seq::empty()
    } else if is_http_url(urls.last()) {
        http_only(urls.drop_last()).push(urls.last())
    } else {
        http_only(urls.drop_last())
    }
}

proof fn lemma_http_only(urls: Seq<Seq<char>>)
    ensures
        http_only(urls).len() <= urls.len(),
        forall|i: int| 0 <= i < http_only(urls).len() ==> is_http_url(#[trigger] http_only(urls)[i]),
        forall|i: int| 0 <= i < http_only(urls).len() ==> urls.contains(#[trigger] http_only(urls)[i]),
    decreases urls.len(),
{
    if urls.len() > 0 {
        lemma_http_only(urls.drop_last());
        let prev = http_only(urls.drop_last());
        assert forall|i: int| 0 <= i < prev.len() implies urls.contains(#[trigger] prev[i]) by {
            let j = choose|j: int| 0 <= j < urls.drop_last().len() && urls.drop_last()[j] == prev[i];
            assert(urls[j] == prev[i]);
        }
        if is_http_url(urls.last()) {
            assert(urls[urls.len() - 1] == urls.last());
        }
    }
}

/// At most three trackers are asked, all of them HTTP(S) trackers of the
/// torrent.
pub proof fn lemma_announce_targets(trackers: Seq<Seq<char>>)
    ensures
        announce_targets_spec(trackers).len() <= 3,
        forall|i: int| 0 <= i < announce_targets_spec(trackers).len()
            ==> is_http_url(#[trigger] announce_targets_spec(trackers)[i]) && trackers.contains(announce_targets_spec(trackers)[i]),
{
    let n: int = if trackers.len() < 3 { trackers.len() as int } else { 3 };
    let first = trackers.take(n);
    lemma_http_only(first);
    assert forall|i: int| 0 <= i < announce_targets_spec(trackers).len()
        implies is_http_url(#[trigger] announce_targets_spec(trackers)[i]) && trackers.contains(announce_targets_spec(trackers)[i]) by {
        let u = announce_targets_spec(trackers)[i];
        assert(first.contains(u));
        let j = choose|j: int| 0 <= j < first.len() && first[j] == u;
        assert(trackers[j] == u);
    }
}

/// The trackers that are asked, in order: the HTTP(S) ones among the first
/// three (UDP trackers are not supported).
pub open spec fn announce_targets_spec(trackers: Seq<Seq<char>>) -> Seq<Seq<char>> {
    http_only(trackers.take(if trackers.len() < 3 { trackers.len() as int } else { 3 }))
}

/// The trackers to announce to, in order.
pub fn announce_targets(trackers: &Vec<String>) -> (r: Vec<String>)
    ensures
        string_views(r@) == announce_targets_spec(string_views(trackers@)),
{
    let ghost tv = string_views(trackers@);
    let n: usize = if trackers.len() < 3 { trackers.len() } else { 3 };
    let http = chars_of("http://");
    let https = chars_of("https://");
    let mut r: Vec<String> = Vec::new();
    let mut i: usize = 0;
    while i < n
        invariant
            n <= trackers.len(),
            n == (if tv.len() < 3 { tv.len() as int } else { 3 }),
            i <= n,
            tv == string_views(trackers@),
            http@ == "http://"@,
            https@ == "https://"@,
            string_views(r@) == http_only(tv.take(i as int)),
        decreases n - i,
    {
        assert(tv.take(i + 1).drop_last() == tv.take(i as int));
        assert(tv.take(i + 1).last() == trackers@[i as int]@);
        let url = chars_of(trackers[i].as_str());
        if has_prefix(&url, &http) || has_prefix(&url, &https) {
            let ghost before = r@;
            r.push(trackers[i].clone());
            assert(string_views(r@) =~= string_views(before).push(trackers@[i as int]@));
        }
        i = i + 1;
    }
    r
}

/// The announce URL of a tracker for a torrent: the tracker's URL with the
/// query of a first announce by a client that has nothing yet.
pub open spec fn announce_url_spec(tracker: Seq<char>, info_hash: Seq<char>) -> Seq<char> {
    tracker + "?info_hash="@ + info_hash
        + "&peer_id=-FE0100-000000000000&port=6881&uploaded=0&downloaded=0&left=0&compact=1&event=started"@
}

/// The announce URL of a tracker for a torrent.
pub fn announce_url(tracker: &str, info_hash: &str) -> (r: String)
    ensures
        r@ == announce_url_spec(tracker@, info_hash@),
{
    let mut r = tracker.to_owned();
    r.append("?info_hash=");
    r.append(info_hash);
    r.append("&peer_id=-FE0100-000000000000&port=6881&uploaded=0&downloaded=0&left=0&compact=1&event=started");
    r
}

/// The peers a tracker reports: its seeders plus its leechers, each 0 when
/// missing.
pub open spec fn reported_peers(complete: Option<u32>, incomplete: Option<u32>) -> int {
    (match complete { Some(c) => c as int, None => 0 }) + (match incomplete { Some(i) => i as int, None => 0 })
}

/// Whether the peers a tracker reports add up within `u32`.
pub fn peer_count_in_range(complete: Option<u32>, incomplete: Option<u32>) -> (r: bool)
    ensures
        r == (reported_peers(complete, incomplete) <= u32::MAX),
{
    let c: u64 = match complete {
        Some(c) => c as u64,
        None => 0,
    };
    let i: u64 = match incomplete {
        Some(i) => i as u64,
        None => 0,
    };
    c + i <= 4294967295u64
}

/// The peers a tracker's answer reports.
pub fn tracker_peer_count(complete: Option<u32>, incomplete: Option<u32>) -> (n: u32)
    requires
        reported_peers(complete, incomplete) <= u32::MAX,
    ensures
        n == reported_peers(complete, incomplete),
{
    let c = match complete {
        Some(c) => c,
        None => 0,
    };
    let i = match incomplete {
        Some(i) => i,
        None => 0,
    };
    c + i
}

/// One step of announcing: `total` peers were found so far and a tracker
/// answered with `answer` peers (`None` when the announce failed). Returns
/// the new total, which saturates at `u32::MAX`, and whether to stop, which
/// is the case once an answer brought the total above zero.
pub fn announce_step(total: u32, answer: Option<u32>) -> (r: (u32, bool))
    ensures
        match answer {
            Some(c) => {
                &&& r.0 == (if total + c > u32::MAX { u32::MAX as int } else { total + c })
                &&& r.1 == (r.0 > 0)
            },
            None => r.0 == total && !r.1,
        },
{
    match answer {
        Some(c) => {
            let t = total.saturating_add(c);
            (t, t > 0)
        },
        None => (total, false),
    }
}

} // verus!
