//! Magnet links and the percent-encoding of their fields.

use vstd::prelude::*;
use crate::text::{chars_of, string_of, chars_from, has_prefix, split_chars, split_on, char_vec_views};
use crate::models::string_views;

verus! {

/// Whether `c` is a hexadecimal digit (either case).
pub open spec fn is_hex_digit(c: char) -> bool {
    ('0' <= c && c <= '9') || ('a' <= c && c <= 'f') || ('A' <= c && c <= 'F')
}

/// The value of the hexadecimal digit `c`.
pub open spec fn hex_digit_value(c: char) -> nat {
    if '0' <= c && c <= '9' {
        ((c as int) - ('0' as int)) as nat
    } else if 'a' <= c && c <= 'f' {
        ((c as int) - ('a' as int) + 10) as nat
    } else {
        ((c as int) - ('A' as int) + 10) as nat
    }
}

/// `s` with every `+` read as a space.
pub open spec fn plus_to_space(s: Seq<char>) -> Seq<char> {
    s.map_values(|c: char| if c == '+' { ' ' } else { c })
}

/// Percent-decoding: `%` and the two characters after it (a missing one
/// reads as `0`) stand for the character whose code is the byte they spell
/// in hexadecimal; when they spell no byte, all three are dropped. Other
/// characters stand for themselves.
pub open spec fn percent_decode(s: Seq<char>) -> Seq<char>
    decreases s.len(),
{
    if s.len() == 0 {
        Seq::empty()
    } else if s[0] == '%' {
        let h1 = if s.len() > 1 { s[1] } else { '0' };
        let h2 = if s.len() > 2 { s[2] } else { '0' };
        let n: int = if s.len() >= 3 { 3 } else { s.len() as int };
        let head = if is_hex_digit(h1) && is_hex_digit(h2) {
            seq![((hex_digit_value(h1) * 16 + hex_digit_value(h2)) as u8) as char]
        } else {
            Seq::empty()
        };
        head + percent_decode(s.skip(n))
    } else {
        seq![s[0]] + percent_decode(s.drop_first())
    }
}

/// Decoding of a URL-encoded magnet field.
pub open spec fn url_decode(s: Seq<char>) -> Seq<char> {
    percent_decode(plus_to_space(s))
}

proof fn lemma_percent_decode_plain(s: Seq<char>)
    requires
        forall|i: int| 0 <= i < s.len() ==> s[i] != '%',
    ensures
        percent_decode(s) == s,
    decreases s.len(),
{
    if s.len() > 0 {
        lemma_percent_decode_plain(s.drop_first());
        assert(seq![s[0]] + s.drop_first() =~= s);
    }
}

/// Text holding no `%` and no `+` decodes to itself.
pub proof fn lemma_plain_text_decodes_to_itself(s: Seq<char>)
    requires
        forall|i: int| 0 <= i < s.len() ==> s[i] != '%' && s[i] != '+',
    ensures
        url_decode(s) == s,
{
    assert(plus_to_space(s) =~= s);
    lemma_percent_decode_plain(s);
}

fn hex_digit(c: char) -> (r: Option<u32>)
    ensures
        match r {
            Some(v) => is_hex_digit(c) && v as nat == hex_digit_value(c),
            None => !is_hex_digit(c),
        },
{
    if '0' <= c && c <= '9' {
        Some((c as u32) - ('0' as u32))
    } else if 'a' <= c && c <= 'f' {
        Some((c as u32) - ('a' as u32) + 10)
    } else if 'A' <= c && c <= 'F' {
        Some((c as u32) - ('A' as u32) + 10)
    } else {
        None
    }
}

fn url_decode_chars(s: &Vec<char>) -> (r: Vec<char>)
    ensures
        r@ == url_decode(s@),
{
    let mut t: Vec<char> = Vec::new();
    let mut k: usize = 0;
    while k < s.len()
        invariant
            k <= s.len(),
            t@ == plus_to_space(s@).take(k as int),
        decreases s.len() - k,
    {
        let c = s[k];
        t.push(if c == '+' { ' ' } else { c });
        assert(plus_to_space(s@).take(k + 1) =~= plus_to_space(s@).take(k as int).push(if c == '+' { ' ' } else { c }));
        k = k + 1;
    }
    assert(plus_to_space(s@).take(s.len() as int) =~= plus_to_space(s@));
    let ghost whole = t@;
    let mut out: Vec<char> = Vec::new();
    let mut i: usize = 0;
    assert(whole.skip(0) == whole);
    while i < t.len()
        invariant
            i <= t.len(),
            t@ == whole,
            out@ + percent_decode(whole.skip(i as int)) == percent_decode(whole),
        decreases t.len() - i,
    {
        let ghost rest = whole.skip(i as int);
        assert(rest[0] == t[i as int]);
        if t[i] == '%' {
            let h1 = if i + 1 < t.len() { t[i + 1] } else { '0' };
            let h2 = if t.len() - i > 2 { t[i + 2] } else { '0' };
            let n: usize = if t.len() - i >= 3 { 3 } else { t.len() - i };
            assert(rest.skip(n as int) == whole.skip(i + n));
            let ghost head = if is_hex_digit(h1) && is_hex_digit(h2) {
                seq![((hex_digit_value(h1) * 16 + hex_digit_value(h2)) as u8) as char]
            } else {
                Seq::<char>::empty()
            };
            assert(percent_decode(rest) == head + percent_decode(rest.skip(n as int)));
            match (hex_digit(h1), hex_digit(h2)) {
                (Some(a), Some(b)) => {
                    let byte: u8 = (a * 16 + b) as u8;
                    out.push(byte as char);
                    assert(out@ + percent_decode(whole.skip(i + n)) =~= out@.drop_last() + (head + percent_decode(rest.skip(n as int))));
                },
                _ => {
                    assert(out@ + percent_decode(whole.skip(i + n)) =~= out@ + (head + percent_decode(rest.skip(n as int))));
                },
            }
            i = i + n;
        } else {
            out.push(t[i]);
            assert(rest.drop_first() == whole.skip(i + 1));
            assert(out@ + percent_decode(whole.skip(i + 1)) =~= out@.drop_last() + (seq![rest[0]] + percent_decode(rest.drop_first())));
            i = i + 1;
        }
    }
    assert(whole.skip(t.len() as int) =~= Seq::<char>::empty());
    assert(out@ =~= out@ + percent_decode(whole.skip(i as int)));
    out
}

/// Decodes a URL-encoded string: `+` reads as a space and `%XX` as the
/// character with code `0xXX`.
pub fn urlencoding_decode(s: &str) -> (r: String)
    ensures
        r@ == url_decode(s@),
{
    string_of(&url_decode_chars(&chars_of(s)))
}

/// What `str::to_lowercase` returns for a string: its Unicode lowercase
/// mapping.
pub uninterp spec fn lowercase(s: Seq<char>) -> Seq<char>;

/// Whether every character of `s` is ASCII.
pub open spec fn is_ascii_text(s: Seq<char>) -> bool {
    forall|i: int| 0 <= i < s.len() ==> (#[trigger] s[i] as int) < 128
}

/// An ASCII letter `A`-`Z` in lowercase; other characters as they are.
pub open spec fn ascii_lower_char(c: char) -> char {
    if 'A' <= c && c <= 'Z' { ((c as int) + 32) as char } else { c }
}

/// `s` with its ASCII capitals in lowercase.
pub open spec fn ascii_lower(s: Seq<char>) -> Seq<char> {
    s.map_values(|c: char| ascii_lower_char(c))
}

/// `str::to_lowercase`.
///
/// Claimed: the result is the lowercase mapping of `s`, which depends on `s`
/// alone. As the standard library documents, every character maps to one
/// or more characters, so the result is at least as long as `s`, and empty
/// exactly when `s` is. On ASCII text, as documented, the letters `A`-`Z`
/// become `a`-`z` and every other character stays. What the mapping is on
/// other characters is left to the standard library.
#[verifier::external_body]
fn to_lowercase(s: &str) -> (r: String)
    ensures
        r@ == lowercase(s@),
        s@.len() <= r@.len(),
        s@.len() == 0 ==> r@.len() == 0,
        is_ascii_text(s@) ==> r@ == ascii_lower(s@),
{
    s.to_lowercase()
}

/// The fields read from a magnet link so far; the exact topic as written.
pub struct MagnetParts {
    pub topic: Option<Seq<char>>,
    pub name: Seq<char>,
    pub trackers: Seq<Seq<char>>,
}

/// Reads the `&`-separated parts of a magnet link in order: an exact topic
/// (`xt=urn:btih:`, also as the first part `magnet:?xt=urn:btih:`) gives
/// the info hash, `dn=` the display name and each `tr=` one more tracker,
/// both URL-decoded; other parts are ignored. Later fields override earlier
/// ones; the name defaults to "Unknown".
pub open spec fn scan_magnet(parts: Seq<Seq<char>>) -> MagnetParts
    decreases parts.len(),
{
    if parts.len() == 0 {
        MagnetParts { topic: None, name: "Unknown"@, trackers: Seq::empty() }
    } else {
        let prev = scan_magnet(parts.drop_last());
        let p = parts.last();
        if "magnet:?xt=urn:btih:"@.is_prefix_of(p) {
            MagnetParts { topic: Some(p.skip("magnet:?xt=urn:btih:"@.len() as int)), ..prev }
        } else if "xt=urn:btih:"@.is_prefix_of(p) {
            MagnetParts { topic: Some(p.skip("xt=urn:btih:"@.len() as int)), ..prev }
        } else if "dn="@.is_prefix_of(p) {
            MagnetParts { name: url_decode(p.skip("dn="@.len() as int)), ..prev }
        } else if "tr="@.is_prefix_of(p) {
            MagnetParts { trackers: prev.trackers.push(url_decode(p.skip("tr="@.len() as int))), ..prev }
        } else {
            prev
        }
    }
}

/// The fields of a magnet link, as written.
pub open spec fn magnet_parts_spec(magnet: Seq<char>) -> MagnetParts {
    scan_magnet(split_on(magnet, '&'))
}

/// The fields of a magnet link.
pub struct MagnetFields {
    pub info_hash: Seq<char>,
    pub name: Seq<char>,
    pub trackers: Seq<Seq<char>>,
}

/// The fields of a magnet link: the info hash is its exact topic in
/// lowercase, empty when it has none.
pub open spec fn magnet_fields(magnet: Seq<char>) -> MagnetFields {
    let p = magnet_parts_spec(magnet);
    MagnetFields {
        info_hash: match p.topic {
            Some(t) => lowercase(t),
            None => Seq::empty(),
        },
        name: p.name,
        trackers: p.trackers,
    }
}

/// Whether a magnet link names an info hash: it has an exact topic, and
/// the last one is not empty.
pub open spec fn names_topic(magnet: Seq<char>) -> bool {
    match magnet_parts_spec(magnet).topic {
        Some(t) => t.len() > 0,
        None => false,
    }
}

/// Why a magnet link was refused.
#[derive(Clone, Copy, Debug, PartialEq, Eq, Structural)]
pub enum MagnetError {
    /// The link names no info hash.
    MissingInfoHash,
}

/// Reads the exact topic (as written), display name and trackers of a
/// magnet link.
pub fn magnet_parts(magnet: &str) -> (r: (Option<String>, String, Vec<String>))
    ensures
        crate::models::opt_view(r.0) == magnet_parts_spec(magnet@).topic,
        r.1@ == magnet_parts_spec(magnet@).name,
        string_views(r.2@) == magnet_parts_spec(magnet@).trackers,
{
    let parts = split_chars(&chars_of(magnet), '&');
    let ghost pv = char_vec_views(parts@);
    let p_magnet = chars_of("magnet:?xt=urn:btih:");
    let p_xt = chars_of("xt=urn:btih:");
    let p_dn = chars_of("dn=");
    let p_tr = chars_of("tr=");
    let mut topic: Option<String> = None;
    let mut name = "Unknown".to_owned();
    let mut trackers: Vec<String> = Vec::new();
    let mut k: usize = 0;
    assert(pv.take(0) == Seq::<Seq<char>>::empty());
    while k < parts.len()
        invariant
            k <= parts.len(),
            pv == char_vec_views(parts@),
            pv == split_on(magnet@, '&'),
            p_magnet@ == "magnet:?xt=urn:btih:"@,
            p_xt@ == "xt=urn:btih:"@,
            p_dn@ == "dn="@,
            p_tr@ == "tr="@,
            crate::models::opt_view(topic) == scan_magnet(pv.take(k as int)).topic,
            name@ == scan_magnet(pv.take(k as int)).name,
            string_views(trackers@) == scan_magnet(pv.take(k as int)).trackers,
        decreases parts.len() - k,
    {
        let part = &parts[k];
        assert(pv.take(k + 1).drop_last() == pv.take(k as int));
        assert(pv.take(k + 1).last() == part@);
        if has_prefix(part, &p_magnet) {
            topic = Some(string_of(&chars_from(part, p_magnet.len())));
        } else if has_prefix(part, &p_xt) {
            topic = Some(string_of(&chars_from(part, p_xt.len())));
        } else if has_prefix(part, &p_dn) {
            name = string_of(&url_decode_chars(&chars_from(part, p_dn.len())));
        } else if has_prefix(part, &p_tr) {
            let t = string_of(&url_decode_chars(&chars_from(part, p_tr.len())));
            let ghost before = trackers@;
            trackers.push(t);
            assert(string_views(trackers@) =~= string_views(before).push(t@));
        }
        k = k + 1;
    }
    assert(pv.take(parts.len() as int) == pv);
    (topic, name, trackers)
}

/// Accepts the fields of a magnet link once its info hash is known; a link
/// with an empty info hash is refused.
pub fn finish_magnet(info_hash: String, name: String, trackers: Vec<String>) -> (r: Result<(String, String, Vec<String>), MagnetError>)
    ensures
        match r {
            Ok((h, n, t)) => info_hash@.len() > 0 && h@ == info_hash@ && n@ == name@ && t@ == trackers@,
            Err(e) => info_hash@.len() == 0 && e == MagnetError::MissingInfoHash,
        },
{
    if info_hash.as_str().is_empty() {
        return Err(MagnetError::MissingInfoHash);
    }
    Ok((info_hash, name, trackers))
}

/// Reads the info hash (lowercased), display name and trackers of a magnet
/// link; the link is refused when it names no (or an empty) info hash.
pub fn parse_magnet(magnet: &str) -> (r: Result<(String, String, Vec<String>), MagnetError>)
    ensures
        match r {
            Ok((hash, name, trackers)) => {
                &&& magnet_fields(magnet@).info_hash.len() > 0
                &&& hash@ == magnet_fields(magnet@).info_hash
                &&& name@ == magnet_fields(magnet@).name
                &&& string_views(trackers@) == magnet_fields(magnet@).trackers
            },
            Err(e) => e == MagnetError::MissingInfoHash && magnet_fields(magnet@).info_hash.len() == 0,
        },
        r is Err <==> !names_topic(magnet@),
        match magnet_parts_spec(magnet@).topic {
            Some(t) => is_ascii_text(t) ==> magnet_fields(magnet@).info_hash == ascii_lower(t),
            None => true,
        },
{
    let (topic, name, trackers) = magnet_parts(magnet);
    let info_hash = match topic {
        Some(t) => to_lowercase(t.as_str()),
        None => String::new(),
    };
    finish_magnet(info_hash, name, trackers)
}

} // verus!
