use johnbox::query::{clean_target, has_marker};
use johnbox::serve::{uri_to_string, Origin, Reply, RequestUri, ServeError};
use johnbox::serve_jb_tv;
use johnbox::text::starts_with;

fn uri(path: &str, query: Option<&str>) -> RequestUri {
    RequestUri { origin: None, path: path.to_string(), query: query.map(|q| q.to_string()) }
}

fn absolute(path: &str, query: Option<&str>) -> RequestUri {
    let origin = Origin { scheme: "https".to_string(), authority: "jackbox.tv:8080".to_string() };
    RequestUri { origin: Some(origin), ..uri(path, query) }
}

fn location(uri: &RequestUri) -> String {
    match serve_jb_tv(uri, None) {
        Ok(Reply::Redirect { location }) => location,
        other => panic!("{:?}", other),
    }
}

#[test]
fn marker_is_found_anywhere_but_at_the_start() {
    assert!(has_marker("a=1&s=2"));
    assert!(has_marker("&s="));
    assert!(has_marker("s=1&s=2"));
    assert!(!has_marker("s=1"));
    assert!(!has_marker("s=1&a=2"));
    assert!(!has_marker("a&ss=1"));
    assert!(!has_marker("a&s"));
    assert!(!has_marker(""));
}

#[test]
fn s_parameters_are_taken_away() {
    assert_eq!(clean_target("/p", "a=1&s=2&b=3"), "/p?a=1&b=3");
    assert_eq!(clean_target("/p", "s=0&a=1&s=2"), "/p?a=1");
    assert_eq!(clean_target("/p", "a=1&s=2&"), "/p?a=1&");
    assert_eq!(clean_target("/p", "&s=2"), "/p?");
    assert_eq!(clean_target("/p", "a=\u{e9}&s=\u{e9}"), "/p?a=\u{e9}");
}

#[test]
fn question_mark_goes_with_the_last_parameter() {
    assert_eq!(clean_target("/p", "s=1&s=2"), "/p");
    assert_eq!(clean_target("/p", "s="), "/p");
}

#[test]
fn cleaning_twice_is_cleaning_once() {
    let once = clean_target("", "a=1&s=2&&b&s=3");
    assert_eq!(once, "?a=1&&b");
    assert_eq!(clean_target("", &once[1..]), once);
}

#[test]
fn query_without_s_parameters_is_kept() {
    assert_eq!(clean_target("/p", "a=1&b&&"), "/p?a=1&b&&");
    assert_eq!(clean_target("/p", ""), "/p?");
}

#[test]
fn marked_request_is_sent_on() {
    assert_eq!(location(&uri("/main.js", Some("v=1&s=2&w=3"))), "/main.js?v=1&w=3");
    assert_eq!(location(&uri("/", Some("s=1&s=2"))), "/");
    assert_eq!(
        location(&absolute("/main.js", Some("v=1&s=2"))),
        "https://jackbox.tv:8080/main.js?v=1"
    );
}

#[test]
fn marked_request_is_sent_on_whoever_asks() {
    let request = uri("/p", Some("v=1&s=2"));
    let expected = Ok(Reply::Redirect { location: "/p?v=1".to_string() });
    assert_eq!(serve_jb_tv(&request, Some(b"JackboxGames/1.0")), expected);
    let expected = Ok(Reply::Redirect { location: "/p?v=1".to_string() });
    assert_eq!(serve_jb_tv(&request, Some(b"\xff")), expected);
}

#[test]
fn who_follows_a_redirect_is_not_sent_on_again() {
    let next = location(&uri("/p", Some("s=0&v=1&s=2&w")));
    assert_eq!(next, "/p?v=1&w");
    let (path, query) = next.split_once('?').unwrap();
    assert_eq!(serve_jb_tv(&uri(path, Some(query)), None), Ok(Reply::Page));
}

#[test]
fn parsed_target_is_what_is_sent() {
    // A target that begins with its query has `/` for its path.
    assert_eq!(location(&uri("", Some("v&s="))), "/?v");
    // What follows a `#` is dropped.
    assert_eq!(location(&uri("/p#frag", Some("v&s="))), "/p");
    assert_eq!(location(&uri("*", Some("s=1&s="))), "*");
    assert_eq!(location(&uri("/\u{e9}\"{}", Some("\u{e9}?&s="))), "/\u{e9}\"{}?\u{e9}?");
}

#[test]
fn invalid_target_is_refused() {
    for (path, target) in [("p", "p?v"), ("/a b", "/a b?v"), ("*", "*?v"), ("/<", "/<?v"), ("/`", "/`?v")] {
        let error = serve_jb_tv(&uri(path, Some("v&s=1")), None).unwrap_err();
        assert_eq!(error, ServeError::InvalidTarget { target: target.to_string() });
        assert_eq!(error.status_code(), 500);
        assert_eq!(error.message(), format!("Generated query `{}` was not valid", target));
    }
    assert!(serve_jb_tv(&uri("/p", Some("\"&s=1")), None).is_err());
    assert!(serve_jb_tv(&uri("", Some("s=1&s=")), None).is_err());
}

#[test]
fn longest_target_is_accepted() {
    let path = format!("/{}", "a".repeat(65533));
    assert_eq!(location(&uri(&path, Some("s=&s="))), path);
    let path = format!("/{}", "a".repeat(65534));
    assert!(serve_jb_tv(&uri(&path, Some("s=&s=")), None).is_err());
}

#[test]
fn game_is_told_that_all_is_well() {
    let request = uri("/api/unknown", None);
    assert_eq!(serve_jb_tv(&request, Some(b"JackboxGames/1.0")), Ok(Reply::UnknownEndpoint));
    assert_eq!(serve_jb_tv(&request, Some(b"JackboxGames")), Ok(Reply::UnknownEndpoint));
}

#[test]
fn others_get_a_page() {
    let request = uri("/", Some("s=1"));
    assert_eq!(serve_jb_tv(&request, None), Ok(Reply::Page));
    assert_eq!(serve_jb_tv(&request, Some(b"Mozilla/5.0\t(JackboxGames)")), Ok(Reply::Page));
    assert_eq!(serve_jb_tv(&request, Some(b"jackboxgames")), Ok(Reply::Page));
    assert_eq!(serve_jb_tv(&request, Some(b"JackboxGame")), Ok(Reply::Page));
    assert_eq!(serve_jb_tv(&request, Some(b"")), Ok(Reply::Page));
}

#[test]
fn user_agent_must_be_visible() {
    let values: [&[u8]; 4] = [b"JackboxGames\xff", b"\x7f", b"a\nb", "caf\u{e9}".as_bytes()];
    for value in values {
        let error = serve_jb_tv(&uri("/", None), Some(value)).unwrap_err();
        assert_eq!(error, ServeError::InvalidUserAgent);
        assert_eq!(error.status_code(), 422);
        assert_eq!(error.message(), "UserAgent was not valid UTF-8");
    }
}

#[test]
fn uri_is_written_as_the_parsed_one_is() {
    for text in ["/a/b?c=d", "/", "https://jackbox.tv/x?y", "http://h:1/"] {
        let parsed: axum::http::Uri = text.parse().unwrap();
        let origin = match (parsed.scheme_str(), parsed.authority()) {
            (Some(scheme), Some(authority)) => {
                Some(Origin { scheme: scheme.to_string(), authority: authority.to_string() })
            }
            _ => None,
        };
        let query = parsed.query().map(|q| q.to_string());
        assert_eq!(uri_to_string(&origin, parsed.path(), &query), parsed.to_string());
    }
}

#[test]
fn prefix_is_compared_by_characters() {
    assert!(starts_with("\u{e9}a", "\u{e9}"));
    assert!(starts_with("ab", ""));
    assert!(!starts_with("a", "ab"));
    assert!(!starts_with("ba", "a"));
}

#[test]
fn every_ascii_character_of_a_path_is_judged() {
    let allowed = "!\"$%&'()*+,-./0123456789:;=@ABCDEFGHIJKLMNOPQRSTUVWXYZ[\\]^_abcdefghijklmnopqrstuvwxyz{|}~";
    for code in 0u8..128 {
        let c = code as char;
        if c == '?' || c == '#' {
            continue;
        }
        let path = format!("/{}", c);
        let outcome = serve_jb_tv(&uri(&path, Some("s=&s=")), None);
        if allowed.contains(c) {
            assert_eq!(outcome, Ok(Reply::Redirect { location: path }));
        } else {
            assert_eq!(outcome, Err(ServeError::InvalidTarget { target: path }));
        }
    }
}

#[test]
fn every_ascii_character_of_a_query_is_judged() {
    let allowed = "!$%&'()*+,-./0123456789:;=?@ABCDEFGHIJKLMNOPQRSTUVWXYZ[\\]^_`abcdefghijklmnopqrstuvwxyz{|}~";
    for code in 0u8..128 {
        let c = code as char;
        if c == '#' {
            continue;
        }
        let target = format!("/?v{}", c);
        let outcome = serve_jb_tv(&uri("/", Some(&format!("v{}&s=", c))), None);
        if allowed.contains(c) {
            assert_eq!(outcome, Ok(Reply::Redirect { location: target }));
        } else {
            assert_eq!(outcome, Err(ServeError::InvalidTarget { target }));
        }
    }
}

#[test]
fn every_byte_of_a_user_agent_is_judged() {
    for byte in 0u8..=255 {
        let outcome = serve_jb_tv(&uri("/", None), Some(&[byte]));
        if byte == b'\t' || (byte >= 32 && byte < 127) {
            assert_eq!(outcome, Ok(Reply::Page));
        } else {
            assert_eq!(outcome, Err(ServeError::InvalidUserAgent));
        }
    }
}

#[test]
fn requests_that_carry_a_query_are_never_refused() {
    for text in ["/p?a=1&s=2", "/?&s=", "https://h?v&s=1", "http://h:1/x/%20?s=&s=&s=&w"] {
        let parsed: axum::http::Uri = text.parse().unwrap();
        let request = uri(parsed.path(), parsed.query());
        let next = location(&request);
        assert!(!next.contains("s="));
        assert!(next.parse::<axum::http::Uri>().is_ok());
    }
}

#[test]
fn replies_have_a_status_and_a_body() {
    let redirect = Reply::Redirect { location: "/p".to_string() };
    assert_eq!(redirect.status_code(), Some(303));
    assert_eq!(redirect.body(), Some(String::new()));
    assert_eq!(Reply::UnknownEndpoint.status_code(), Some(200));
    assert_eq!(Reply::Page.status_code(), None);
    assert_eq!(Reply::Page.body(), None);
}

#[test]
fn game_is_told_so_in_json() {
    let mut told = serde_json::Map::new();
    told.insert("ok".to_string(), serde_json::Value::Bool(true));
    told.insert("body".to_string(), serde_json::Value::Object(serde_json::Map::new()));
    let body = Reply::UnknownEndpoint.body().unwrap();
    assert_eq!(body, "{\"body\":{},\"ok\":true}");
    let parsed: serde_json::Value = serde_json::from_str(&body).unwrap();
    assert_eq!(parsed, serde_json::Value::Object(told));
}
