use ronfire::connection::{after_write, keep_alive, on_request, respond, Dispatch, WriteOutcome};
use ronfire::mime::guess_mime_type;
use ronfire::request::{parse_request, RequestError};
use ronfire::resolve::{resolve_static_path, static_candidates, ResolveError};
use ronfire::response::{decimal_string, generate_response, not_found_response};
use ronfire::text::{contains, str_eq};
use ronfire::urlpath::{extension, has_parent_segment};

#[test]
fn mime_scenario() {
    assert_eq!(guess_mime_type("style.css"), "text/css");
    assert_eq!(guess_mime_type("photo.jpeg"), "image/jpeg");
    assert_eq!(guess_mime_type("archive.tar.gz"), "application/octet-stream");
}

#[test]
fn mime_table() {
    let table = [
        ("a.html", "text/html"),
        ("a.htm", "text/html"),
        ("a.js", "application/javascript"),
        ("a.json", "application/json"),
        ("a.png", "image/png"),
        ("a.jpg", "image/jpeg"),
        ("a.gif", "image/gif"),
        ("a.svg", "image/svg+xml"),
        ("a.ico", "image/x-icon"),
        ("a.txt", "text/plain"),
        ("a.wasm", "application/wasm"),
        ("a.woff", "font/woff"),
        ("a.woff2", "font/woff2"),
        ("a.ttf", "font/ttf"),
        ("a.otf", "font/otf"),
        ("a.mp4", "video/mp4"),
        ("a.webm", "video/webm"),
        ("a.ogg", "audio/ogg"),
        ("a.mp3", "audio/mpeg"),
    ];
    for (path, mime) in table {
        assert_eq!(guess_mime_type(path), mime, "{}", path);
    }
}

#[test]
fn mime_ignores_ascii_case() {
    assert_eq!(guess_mime_type("static/INDEX.HTML"), "text/html");
    assert_eq!(guess_mime_type("Photo.JpG"), "image/jpeg");
}

#[test]
fn mime_without_extension() {
    assert_eq!(guess_mime_type("static/about"), "application/octet-stream");
    assert_eq!(guess_mime_type("static/.bashrc"), "application/octet-stream");
    assert_eq!(guess_mime_type("static.d/readme"), "application/octet-stream");
    assert_eq!(guess_mime_type("notes."), "application/octet-stream");
}

#[test]
fn extension_is_after_last_dot_of_last_segment() {
    assert_eq!(extension("archive.tar.gz"), Some("gz"));
    assert_eq!(extension("a.b/c"), None);
    assert_eq!(extension(".hidden"), None);
    assert_eq!(extension("x/.hidden"), None);
    assert_eq!(extension("..x"), Some("x"));
    assert_eq!(extension("notes."), Some(""));
}

#[test]
fn parent_segments_are_found() {
    assert!(has_parent_segment(".."));
    assert!(has_parent_segment("../etc/passwd"));
    assert!(has_parent_segment("a/../b"));
    assert!(has_parent_segment("a/.."));
    assert!(!has_parent_segment("a..b"));
    assert!(!has_parent_segment("..a/b"));
    assert!(!has_parent_segment("a/.../b"));
    assert!(!has_parent_segment(""));
}

#[test]
fn traversal_is_rejected() {
    for p in ["..", "../secret", "a/../../b", "css/..", "a/../index.html", "x/../"] {
        assert_eq!(static_candidates("static", p), Err(ResolveError::PathTraversal));
        assert_eq!(
            resolve_static_path("static", p, &vec![true, true]),
            Err(ResolveError::PathTraversal)
        );
    }
}

#[test]
fn empty_path_resolves_to_index() {
    assert_eq!(static_candidates("static", ""), Ok(vec!["static/index.html".to_string()]));
    assert_eq!(
        resolve_static_path("static", "", &vec![true]),
        Ok("static/index.html".to_string())
    );
    assert_eq!(resolve_static_path("static", "", &vec![false]), Err(ResolveError::NotFound));
    assert_eq!(resolve_static_path("static", "", &vec![]), Err(ResolveError::NotFound));
}

#[test]
fn trailing_slash_resolves_to_inner_index() {
    assert_eq!(
        static_candidates("static", "blog/"),
        Ok(vec!["static/blog/index.html".to_string()])
    );
    assert_eq!(
        resolve_static_path("static", "blog/", &vec![true]),
        Ok("static/blog/index.html".to_string())
    );
}

#[test]
fn extensionless_prefers_html_file() {
    assert_eq!(
        static_candidates("static", "about"),
        Ok(vec!["static/about.html".to_string(), "static/about/index.html".to_string()])
    );
    assert_eq!(
        resolve_static_path("static", "about", &vec![true, true]),
        Ok("static/about.html".to_string())
    );
    assert_eq!(
        resolve_static_path("static", "about", &vec![false, true]),
        Ok("static/about/index.html".to_string())
    );
    assert_eq!(
        resolve_static_path("static", "about", &vec![false, false]),
        Err(ResolveError::NotFound)
    );
}

#[test]
fn path_with_extension_is_used_as_is() {
    assert_eq!(
        static_candidates("static", "css/main.css"),
        Ok(vec!["static/css/main.css".to_string()])
    );
    assert_eq!(
        resolve_static_path("www", "css/main.css", &vec![true]),
        Ok("www/css/main.css".to_string())
    );
}

#[test]
fn parse_accepts_get() {
    let q = parse_request("GET /index.html HTTP/1.1\r\nHost: x\r\n\r\n").unwrap();
    assert_eq!(q.method, "GET");
    assert_eq!(q.url_path, "index.html");
    assert_eq!(q.version, "HTTP/1.1");
    let q = parse_request("GET //a/b HTTP/1.0").unwrap();
    assert_eq!(q.url_path, "a/b");
    assert_eq!(q.version, "HTTP/1.0");
    let q = parse_request("  GET \t /  HTTP/1.1 extra\n").unwrap();
    assert_eq!(q.url_path, "");
}

#[test]
fn parse_refusals() {
    assert_eq!(parse_request("").unwrap_err(), RequestError::MalformedRequest);
    assert_eq!(parse_request("\n").unwrap_err(), RequestError::UnsupportedVersion);
    assert_eq!(parse_request("GET / HTTP/2").unwrap_err(), RequestError::UnsupportedVersion);
    assert_eq!(parse_request("GET /").unwrap_err(), RequestError::UnsupportedVersion);
    assert_eq!(parse_request("GET\nHTTP/1.1").unwrap_err(), RequestError::UnsupportedVersion);
    assert_eq!(parse_request("POST / HTTP/1.1").unwrap_err(), RequestError::UnsupportedMethod);
    assert_eq!(parse_request("get / HTTP/1.1").unwrap_err(), RequestError::UnsupportedMethod);
}

#[test]
fn decimal_lengths() {
    assert_eq!(decimal_string(0), "0");
    assert_eq!(decimal_string(7), "7");
    assert_eq!(decimal_string(10), "10");
    assert_eq!(decimal_string(1234567), "1234567");
    assert_eq!(decimal_string(usize::MAX), usize::MAX.to_string());
}

#[test]
fn served_file_round_trip() {
    let bytes = b"body { color: red; }\n".to_vec();
    let (status, headers, body) = generate_response("static/style.css", Some(bytes.clone()));
    assert_eq!(status, "HTTP/1.1 200 OK\r\n");
    assert_eq!(headers, "Content-Length: 21\r\nContent-Type: text/css\r\n\r\n");
    assert_eq!(body, bytes);
}

#[test]
fn empty_file_is_served() {
    let (status, headers, body) = generate_response("static/empty.txt", Some(vec![]));
    assert_eq!(status, "HTTP/1.1 200 OK\r\n");
    assert_eq!(headers, "Content-Length: 0\r\nContent-Type: text/plain\r\n\r\n");
    assert!(body.is_empty());
}

#[test]
fn missing_file_is_not_found() {
    let expected = (
        "HTTP/1.1 404 Not Found\r\n".to_string(),
        "Content-Length: 22\r\nContent-Type: text/html\r\n\r\n".to_string(),
        b"<h1>404 Not Found</h1>".to_vec(),
    );
    assert_eq!(generate_response("static/nope.html", None), expected);
    assert_eq!(not_found_response(), expected);
}

#[test]
fn keep_alive_scenario() {
    let plain = "GET / HTTP/1.1\r\nHost: x\r\n\r\n";
    match on_request(plain) {
        Dispatch::Serve { url_path, keep_alive } => {
            assert_eq!(url_path, "");
            assert!(keep_alive);
        }
        other => panic!("unexpected {:?}", other),
    }
    let closing = "GET / HTTP/1.1\r\nConnection: close\r\n\r\n";
    match on_request(closing) {
        Dispatch::Serve { keep_alive, .. } => assert!(!keep_alive),
        other => panic!("unexpected {:?}", other),
    }
    let old = "GET / HTTP/1.0\r\n\r\n";
    assert!(!keep_alive(old, "HTTP/1.0"));
    let old_kept = "GET / HTTP/1.0\r\nConnection: keep-alive\r\n\r\n";
    assert!(keep_alive(old_kept, "HTTP/1.0"));
}

#[test]
fn refused_request_closes() {
    assert!(matches!(on_request(""), Dispatch::Close(RequestError::MalformedRequest)));
    assert!(matches!(
        on_request("PUT /x HTTP/1.1\r\n"),
        Dispatch::Close(RequestError::UnsupportedMethod)
    ));
    assert!(matches!(
        on_request("GET /x HTTP/0.9\r\n"),
        Dispatch::Close(RequestError::UnsupportedVersion)
    ));
}

#[test]
fn reply_carries_connection_header() {
    let r = respond(&Ok("static/index.html".to_string()), Some(b"<p>hi</p>".to_vec()), true);
    assert_eq!(r.status_line, "HTTP/1.1 200 OK\r\n");
    assert_eq!(
        r.headers,
        "Connection: keep-alive\r\nContent-Length: 9\r\nContent-Type: text/html\r\n\r\n"
    );
    assert_eq!(r.body, b"<p>hi</p>".to_vec());
    assert!(r.keep_open);

    let r = respond(&Err(ResolveError::NotFound), None, false);
    assert_eq!(r.status_line, "HTTP/1.1 404 Not Found\r\n");
    assert_eq!(r.headers, "Connection: close\r\nContent-Length: 22\r\nContent-Type: text/html\r\n\r\n");
    assert!(!r.keep_open);
}

#[test]
fn unreadable_file_degrades_to_not_found() {
    let r = respond(&Ok("static/locked.html".to_string()), None, true);
    assert_eq!(r.status_line, "HTTP/1.1 404 Not Found\r\n");
    assert_eq!(r.body, b"<h1>404 Not Found</h1>".to_vec());
    assert!(r.keep_open);
}

#[test]
fn traversal_gets_not_found_then_close() {
    let r = respond(&Err(ResolveError::PathTraversal), None, true);
    assert_eq!(r.status_line, "HTTP/1.1 404 Not Found\r\n");
    assert!(r.headers.starts_with("Connection: close\r\n"));
    assert!(!r.keep_open);
}

#[test]
fn write_failures_end_connection() {
    assert!(!after_write(WriteOutcome::StatusFailed, true));
    assert!(!after_write(WriteOutcome::HeadersFailed, true));
    assert!(after_write(WriteOutcome::BodyFailed, true));
    assert!(after_write(WriteOutcome::Written, true));
    assert!(!after_write(WriteOutcome::Written, false));
}

#[test]
fn text_helpers() {
    assert!(str_eq("abc", "abc"));
    assert!(!str_eq("abc", "abd"));
    assert!(!str_eq("ab", "abc"));
    assert!(contains("Connection: close", "close"));
    assert!(contains("abc", ""));
    assert!(!contains("ab", "abc"));
    assert!(!contains("Connection: clos", "close"));
}

#[test]
fn get_request_end_to_end() {
    let request = "GET /css/site.css HTTP/1.1\r\nHost: x\r\n\r\n";
    let (url_path, keep) = match on_request(request) {
        Dispatch::Serve { url_path, keep_alive } => (url_path, keep_alive),
        other => panic!("unexpected {:?}", other),
    };
    assert_eq!(url_path, "css/site.css");
    let candidates = static_candidates("static", &url_path).unwrap();
    assert_eq!(candidates, vec!["static/css/site.css".to_string()]);
    let resolved = resolve_static_path("static", &url_path, &vec![true]);
    assert_eq!(resolved, Ok("static/css/site.css".to_string()));
    let file = b"h1 { margin: 0 }".to_vec();
    let reply = respond(&resolved, Some(file.clone()), keep);
    assert_eq!(reply.status_line, "HTTP/1.1 200 OK\r\n");
    assert_eq!(
        reply.headers,
        "Connection: keep-alive\r\nContent-Length: 16\r\nContent-Type: text/css\r\n\r\n"
    );
    assert_eq!(reply.body, file);
    assert!(after_write(WriteOutcome::Written, reply.keep_open));
}

#[test]
fn get_request_for_missing_file_end_to_end() {
    let request = "GET /nope HTTP/1.1\r\nConnection: close\r\n\r\n";
    let (url_path, keep) = match on_request(request) {
        Dispatch::Serve { url_path, keep_alive } => (url_path, keep_alive),
        other => panic!("unexpected {:?}", other),
    };
    let resolved = resolve_static_path("static", &url_path, &vec![false, false]);
    assert_eq!(resolved, Err(ResolveError::NotFound));
    let reply = respond(&resolved, None, keep);
    assert_eq!(reply.status_line, "HTTP/1.1 404 Not Found\r\n");
    assert_eq!(
        reply.headers,
        "Connection: close\r\nContent-Length: 22\r\nContent-Type: text/html\r\n\r\n"
    );
    assert_eq!(reply.body, b"<h1>404 Not Found</h1>".to_vec());
    assert!(!after_write(WriteOutcome::Written, reply.keep_open));
}
