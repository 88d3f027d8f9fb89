use ferroload::text::{u64_to_decimal, parse_bounded, str_ends_with, split_chars, chars_of};
use ferroload::web::{
    mime_type, frontend_file, choose_frontend, FrontendChoice, chat_model, chat_system_prompt,
    ollama_api_url, ollama_base_url, download_path_or, UploadForm, UploadError, socket_step,
    SocketInput, SocketAction,
};

#[test]
fn decimal_formatting() {
    assert_eq!(u64_to_decimal(0), "0");
    assert_eq!(u64_to_decimal(7), "7");
    assert_eq!(u64_to_decimal(77), "77");
    assert_eq!(u64_to_decimal(1234567890), "1234567890");
    assert_eq!(u64_to_decimal(u64::MAX), u64::MAX.to_string());
}

#[test]
fn bounded_parsing_follows_str_parse() {
    assert_eq!(parse_bounded("80", u32::MAX as u64), Some(80));
    assert_eq!(parse_bounded("+42", u64::MAX), Some(42));
    assert_eq!(parse_bounded("007", u64::MAX), Some(7));
    assert_eq!(parse_bounded("", u64::MAX), None);
    assert_eq!(parse_bounded("+", u64::MAX), None);
    assert_eq!(parse_bounded("-1", u64::MAX), None);
    assert_eq!(parse_bounded(" 1", u64::MAX), None);
    assert_eq!(parse_bounded("12a", u64::MAX), None);
    assert_eq!(parse_bounded("65535", 65535), Some(65535));
    assert_eq!(parse_bounded("65536", 65535), None);
    assert_eq!(parse_bounded("18446744073709551615", u64::MAX), Some(u64::MAX));
    assert_eq!(parse_bounded("18446744073709551616", u64::MAX), None);
    for s in ["0", "1", "999", "4294967295", "4294967296", "x", "+7"] {
        assert_eq!(parse_bounded(s, u32::MAX as u64), s.parse::<u32>().ok().map(|v| v as u64));
    }
}

#[test]
fn suffix_and_split() {
    assert!(str_ends_with("app.js", ".js"));
    assert!(!str_ends_with("js", ".js"));
    let parts = split_chars(&chars_of("a&&b&"), '&');
    let parts: Vec<String> = parts.iter().map(|p| p.iter().collect()).collect();
    assert_eq!(parts, vec!["a", "", "b", ""]);
}

#[test]
fn mime_types_by_extension() {
    assert_eq!(mime_type("index.html"), "text/html; charset=utf-8");
    assert_eq!(mime_type("assets/app.js"), "application/javascript");
    assert_eq!(mime_type("style.css"), "text/css");
    assert_eq!(mime_type("logo.svg"), "image/svg+xml");
    assert_eq!(mime_type("logo.png"), "image/png");
    assert_eq!(mime_type("favicon.ico"), "image/x-icon");
    assert_eq!(mime_type("font.woff2"), "font/woff2");
    assert_eq!(mime_type("data.json"), "application/json");
    assert_eq!(mime_type("archive.tar.gz"), "application/octet-stream");
    assert_eq!(mime_type(""), "application/octet-stream");
}

#[test]
fn frontend_paths() {
    assert_eq!(frontend_file("/"), "index.html");
    assert_eq!(frontend_file(""), "index.html");
    assert_eq!(frontend_file("///"), "index.html");
    assert_eq!(frontend_file("/assets/app.js"), "assets/app.js");
    assert_eq!(frontend_file("//x/y"), "x/y");
    assert_eq!(choose_frontend(true, true), FrontendChoice::File);
    assert_eq!(choose_frontend(false, true), FrontendChoice::Index);
    assert_eq!(choose_frontend(false, false), FrontendChoice::Missing);
}

#[test]
fn chat_defaults_and_prompt() {
    assert_eq!(chat_model(&None), "llama3");
    assert_eq!(chat_model(&Some("mistral".to_string())), "mistral");
    assert_eq!(
        chat_system_prompt("[]"),
        "You are a helpful assistant for Ferroload, a BitTorrent client. Current torrents: []"
    );
    assert_eq!(ollama_api_url("http://localhost:11434", "tags"), "http://localhost:11434/api/tags");
    assert_eq!(ollama_api_url("http://h:1", "chat"), "http://h:1/api/chat");
    assert_eq!(ollama_base_url(None), "http://localhost:11434");
    assert_eq!(ollama_base_url(Some("http://box:9".to_string())), "http://box:9");
    assert_eq!(download_path_or(None, &Some("/my/data/dir".to_string()), "/home/u"), "/my/data/dir/../Downloads/Ferroload");
    assert_eq!(download_path_or(None, &None, "/home/u"), "/home/u/Downloads/Ferroload");
    assert_eq!(download_path_or(Some("/data".to_string()), &None, "/home/u"), "/data");
}

#[test]
fn upload_form_fields() {
    let mut form = UploadForm::new();
    form.accept_field("label", b"movies".to_vec());
    form.accept_field("ignored", b"x".to_vec());
    form.accept_field("file", vec![1, 2, 3]);
    form.accept_field("download_path", b"/dl/\xff".to_vec());
    assert_eq!(form.label.as_deref(), Some("movies"));
    assert_eq!(form.download_path.as_deref(), Some("/dl/\u{fffd}"));
    let (data, path, label) = match form.into_request("/default".to_string()) {
        Ok(parts) => parts,
        Err(_) => panic!("the form has a file"),
    };
    assert_eq!(data, vec![1, 2, 3]);
    assert_eq!(path, "/dl/\u{fffd}");
    assert_eq!(label.as_deref(), Some("movies"));
}

#[test]
fn upload_form_without_file_is_refused() {
    let mut form = UploadForm::new();
    form.accept_field("label", b"x".to_vec());
    assert!(matches!(form.into_request("/d".to_string()), Err(UploadError::NoFile)));
    let mut form = UploadForm::new();
    form.accept_field("file", vec![9]);
    match form.into_request("/d".to_string()) {
        Ok((_, path, label)) => {
            assert_eq!(path, "/d");
            assert!(label.is_none());
        },
        Err(_) => panic!("the form has a file"),
    }
}

#[test]
fn socket_decisions() {
    assert_eq!(socket_step(SocketInput::Event), SocketAction::SendEvent);
    assert_eq!(socket_step(SocketInput::Ping), SocketAction::Pong);
    assert_eq!(socket_step(SocketInput::Other), SocketAction::Wait);
    assert_eq!(socket_step(SocketInput::Close), SocketAction::Stop);
    assert_eq!(socket_step(SocketInput::SendFailed), SocketAction::Stop);
    assert_eq!(socket_step(SocketInput::Ended), SocketAction::Stop);
}
