//! Pure decisions of the HTTP front end.

use vstd::prelude::*;
use vstd::string::StringExecFns;
use crate::text::{str_ends_with, str_eq, chars_of, chars_from, string_of};
use crate::models::opt_view;

verus! {

/// The content type under which a file of the embedded web interface is
/// served, chosen by the file's extension.
pub open spec fn mime_type_spec(path: Seq<char>) -> Seq<char> {
    if ".html"@.is_suffix_of(path) {
        "text/html; charset=utf-8"@
    } else if ".js"@.is_suffix_of(path) {
        "application/javascript"@
    } else if ".css"@.is_suffix_of(path) {
        "text/css"@
    } else if ".svg"@.is_suffix_of(path) {
        "image/svg+xml"@
    } else if ".png"@.is_suffix_of(path) {
        "image/png"@
    } else if ".ico"@.is_suffix_of(path) {
        "image/x-icon"@
    } else if ".woff2"@.is_suffix_of(path) {
        "font/woff2"@
    } else if ".json"@.is_suffix_of(path) {
        "application/json"@
    } else {
        "application/octet-stream"@
    }
}

/// Content type of an embedded file, by extension.
pub fn mime_type(path: &str) -> (r: &'static str)
    ensures
        r@ == mime_type_spec(path@),
{
    if str_ends_with(path, ".html") {
        "text/html; charset=utf-8"
    } else if str_ends_with(path, ".js") {
        "application/javascript"
    } else if str_ends_with(path, ".css") {
        "text/css"
    } else if str_ends_with(path, ".svg") {
        "image/svg+xml"
    } else if str_ends_with(path, ".png") {
        "image/png"
    } else if str_ends_with(path, ".ico") {
        "image/x-icon"
    } else if str_ends_with(path, ".woff2") {
        "font/woff2"
    } else if str_ends_with(path, ".json") {
        "application/json"
    } else {
        "application/octet-stream"
    }
}

/// The file of the embedded web interface a request path asks for: the
/// path without its leading slashes, `index.html` when nothing is left.
pub open spec fn frontend_file_spec(path: Seq<char>) -> Seq<char> {
    let rest = path.skip(leading_slashes(path) as int);
    if rest.len() == 0 { "index.html"@ } else { rest }
}

/// How many `/` the path starts with.
pub open spec fn leading_slashes(path: Seq<char>) -> nat
    decreases path.len(),
{
    if path.len() > 0 && path[0] == '/' {
        1 + leading_slashes(path.drop_first())
    } else {
        0
    }
}

proof fn lemma_leading_slashes(path: Seq<char>, i: int)
    requires
        0 <= i <= path.len(),
        forall|j: int| 0 <= j < i ==> path[j] == '/',
    ensures
        leading_slashes(path) == i + leading_slashes(path.skip(i)),
    decreases i,
{
    if i > 0 {
        lemma_leading_slashes(path.drop_first(), i - 1);
        assert(path.drop_first().skip(i - 1) == path.skip(i));
    } else {
        assert(path.skip(0) == path);
    }
}

/// The file of the embedded web interface that a request path asks for.
pub fn frontend_file(path: &str) -> (r: String)
    ensures
        r@ == frontend_file_spec(path@),
{
    let cs = chars_of(path);
    let mut i: usize = 0;
    while i < cs.len() && cs[i] == '/'
        invariant
            i <= cs.len(),
            cs@ == path@,
            forall|j: int| 0 <= j < i ==> path@[j] == '/',
        decreases cs.len() - i,
    {
        i = i + 1;
    }
    proof {
        lemma_leading_slashes(path@, i as int);
        let rest = path@.skip(i as int);
        if rest.len() > 0 {
            assert(rest[0] == path@[i as int]);
        }
        assert(leading_slashes(rest) == 0);
    }
    if i == cs.len() {
        "index.html".to_owned()
    } else {
        string_of(&chars_from(&cs, i))
    }
}

/// What the web interface answers for a path.
#[derive(Clone, Copy, Debug, PartialEq, Eq, Structural)]
pub enum FrontendChoice {
    /// The file asked for, with its content type.
    File,
    /// The interface's `index.html`, for client-side routes.
    Index,
    /// Nothing: the interface was not built.
    Missing,
}

/// The answer to a path: the file when it exists, else the index page when
/// that exists, else a not-found answer.
pub fn choose_frontend(file_exists: bool, index_exists: bool) -> (r: FrontendChoice)
    ensures
        r == (if file_exists {
            FrontendChoice::File
        } else if index_exists {
            FrontendChoice::Index
        } else {
            FrontendChoice::Missing
        }),
{
    if file_exists {
        FrontendChoice::File
    } else if index_exists {
        FrontendChoice::Index
    } else {
        FrontendChoice::Missing
    }
}

/// A chat message for the assistant.
pub struct ChatInput {
    pub message: String,
    pub model: Option<String>,
    pub context: Option<String>,
}

/// The model a chat uses: the one asked for, else `llama3`.
pub fn chat_model(model: &Option<String>) -> (r: String)
    ensures
        r@ == match opt_view(*model) {
            Some(m) => m,
            None => "llama3"@,
        },
{
    match model {
        Some(m) => m.clone(),
        None => "llama3".to_owned(),
    }
}

/// The system prompt of a chat, given the current torrents as JSON.
pub fn chat_system_prompt(torrents_json: &str) -> (r: String)
    ensures
        r@ == "You are a helpful assistant for Ferroload, a BitTorrent client. Current torrents: "@ + torrents_json@,
{
    let mut r = "You are a helpful assistant for Ferroload, a BitTorrent client. Current torrents: ".to_owned();
    r.append(torrents_json);
    r
}

/// The URL of an endpoint of the Ollama API at `base`.
pub fn ollama_api_url(base: &str, endpoint: &str) -> (r: String)
    ensures
        r@ == base@ + "/api/"@ + endpoint@,
{
    let mut r = base.to_owned();
    r.append("/api/");
    r.append(endpoint);
    r
}

/// The base URL of the Ollama server: the stored setting, else the local
/// default.
pub fn ollama_base_url(stored: Option<String>) -> (r: String)
    ensures
        r@ == match opt_view(stored) {
            Some(u) => u,
            None => "http://localhost:11434"@,
        },
{
    match stored {
        Some(u) => u,
        None => "http://localhost:11434".to_owned(),
    }
}

/// The folder new torrents download to: the stored setting, else the
/// default download folder (beside the configured data folder, else in the
/// home folder).
pub fn download_path_or(stored: Option<String>, configured_data_dir: &Option<String>, home: &str) -> (r: String)
    ensures
        r@ == match opt_view(stored) {
            Some(p) => p,
            None => crate::settings::default_download_spec(opt_view(*configured_data_dir), home@),
        },
{
    match stored {
        Some(p) => p,
        None => crate::settings::default_download_path(configured_data_dir, home),
    }
}

/// A new RSS feed to watch.
pub struct NewFeed {
    pub url: String,
    pub name: String,
    pub filter_regex: Option<String>,
    pub download_path: Option<String>,
}

/// A watched RSS feed.
pub struct RssFeed {
    pub id: String,
    pub url: String,
    pub name: String,
    pub filter_regex: Option<String>,
    pub download_path: Option<String>,
    pub last_checked: Option<i64>,
    pub enabled: i64,
}

/// A magnet link to add.
pub struct MagnetInput {
    pub magnet: String,
    pub download_path: Option<String>,
    pub label: Option<String>,
    pub start: Option<bool>,
}

/// Options of a torrent removal.
pub struct DeleteQuery {
    pub delete_files: Option<bool>,
}

/// A new priority for one file of a torrent.
pub struct PriorityInput {
    pub file_index: usize,
    pub priority: String,
}

/// What `String::from_utf8_lossy` makes of some bytes: their UTF-8
/// decoding, each invalid sequence replaced by U+FFFD.
pub uninterp spec fn utf8_lossy(bytes: Seq<u8>) -> Seq<char>;

/// `String::from_utf8_lossy`, made an owned `String`.
///
/// Claimed: the result depends on the bytes alone; what it is on given
/// bytes is left to the standard library.
#[verifier::external_body]
fn text_of_bytes(bytes: &[u8]) -> (r: String)
    ensures
        r@ == utf8_lossy(bytes@),
{
    String::from_utf8_lossy(bytes).to_string()
}

/// The fields of a `.torrent` upload form read so far.
pub struct UploadForm {
    pub file: Option<Vec<u8>>,
    pub download_path: Option<String>,
    pub label: Option<String>,
}

/// Why an upload form was refused.
#[derive(Clone, Copy, Debug, PartialEq, Eq, Structural)]
pub enum UploadError {
    /// The form carries no `file` field.
    NoFile,
}

impl UploadForm {
    /// A form with no field read yet.
    pub fn new() -> (f: UploadForm)
        ensures
            f.file is None,
            f.download_path is None,
            f.label is None,
    {
        UploadForm { file: None, download_path: None, label: None }
    }

    /// Reads one field of the form: `file` holds the torrent,
    /// `download_path` and `label` are text; other fields are ignored.
    /// A field read again replaces the earlier value.
    pub fn accept_field(&mut self, name: &str, data: Vec<u8>)
        ensures
            name@ == "file"@ ==> final(self).file == Some(data)
                && final(self).download_path == old(self).download_path
                && final(self).label == old(self).label,
            name@ == "download_path"@ ==> opt_view(final(self).download_path) == Some(utf8_lossy(data@))
                && final(self).file == old(self).file
                && final(self).label == old(self).label,
            name@ == "label"@ ==> opt_view(final(self).label) == Some(utf8_lossy(data@))
                && final(self).file == old(self).file
                && final(self).download_path == old(self).download_path,
            name@ != "file"@ && name@ != "download_path"@ && name@ != "label"@ ==> *final(self) == *old(self),
    {
        proof {
            reveal_strlit("file");
            reveal_strlit("download_path");
            reveal_strlit("label");
            assert("file"@.len() == 4);
            assert("download_path"@.len() == 13);
            assert("label"@.len() == 5);
        }
        if str_eq(name, "file") {
            self.file = Some(data);
        } else if str_eq(name, "download_path") {
            self.download_path = Some(text_of_bytes(data.as_slice()));
        } else if str_eq(name, "label") {
            self.label = Some(text_of_bytes(data.as_slice()));
        }
    }

    /// The torrent data, the download folder (the one given, else
    /// `default_path`) and the label; refused when no file was given.
    pub fn into_request(self, default_path: String) -> (r: Result<(Vec<u8>, String, Option<String>), UploadError>)
        ensures
            match r {
                Ok((data, path, label)) => {
                    &&& self.file == Some(data)
                    &&& path@ == match self.download_path {
                        Some(p) => p@,
                        None => default_path@,
                    }
                    &&& label == self.label
                },
                Err(e) => e == UploadError::NoFile && self.file is None,
            },
    {
        match self.file {
            Some(data) => {
                let path = match self.download_path {
                    Some(p) => p,
                    None => default_path,
                };
                Ok((data, path, self.label))
            },
            None => Err(UploadError::NoFile),
        }
    }
}

/// What the event stream of a web socket can hand over next.
#[derive(Clone, Copy, Debug, PartialEq, Eq, Structural)]
pub enum SocketInput {
    /// An engine event to forward.
    Event,
    /// A ping from the browser.
    Ping,
    /// The browser closed the socket.
    Close,
    /// Any other message from the browser.
    Other,
    /// Sending to the browser failed.
    SendFailed,
    /// Both streams ended.
    Ended,
}

/// What the web socket session does next.
#[derive(Clone, Copy, Debug, PartialEq, Eq, Structural)]
pub enum SocketAction {
    /// Forward the event as JSON text.
    SendEvent,
    /// Answer the ping.
    Pong,
    /// Wait for the next input.
    Wait,
    /// Close the session.
    Stop,
}

/// The web socket session's answer to its next input: events are
/// forwarded, pings answered, other messages ignored; it stops when the
/// browser closes, a send fails or nothing more can come.
pub fn socket_step(input: SocketInput) -> (a: SocketAction)
    ensures
        a == match input {
            SocketInput::Event => SocketAction::SendEvent,
            SocketInput::Ping => SocketAction::Pong,
            SocketInput::Other => SocketAction::Wait,
            _ => SocketAction::Stop,
        },
{
    match input {
        SocketInput::Event => SocketAction::SendEvent,
        SocketInput::Ping => SocketAction::Pong,
        SocketInput::Other => SocketAction::Wait,
        _ => SocketAction::Stop,
    }
}

} // verus!
