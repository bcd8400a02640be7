use edotex::paths::{components, join};
use edotex::server::{
    bad_request, directory_index, error_line, log_line, method_not_allowed, not_found,
    plan_static_request, safe_request_path, serve_after_metadata, request_log_message, serve_after_read, served_file, status_complaint,
    timestamp, Body, FileMetadata, FileRead, RequestMethod, ServeStep, StaticRequest,
};

fn s(v: &str) -> String {
    v.to_string()
}

#[test]
fn safe_request_path_cases() {
    assert_eq!(safe_request_path("/"), Some(s("index.html")));
    assert_eq!(safe_request_path(""), Some(s("index.html")));
    assert_eq!(safe_request_path("///"), Some(s("index.html")));
    assert_eq!(safe_request_path("/docs/guide.pdf"), Some(s("docs/guide.pdf")));
    assert_eq!(safe_request_path("//a/./b//"), Some(s("a/./b//")));
    assert_eq!(safe_request_path("/../etc/passwd"), None);
    assert_eq!(safe_request_path("/a/../../b"), None);
    assert_eq!(safe_request_path("/a/.."), None);
    assert_eq!(safe_request_path("/a/..b/c"), Some(s("a/..b/c")));
    assert_eq!(safe_request_path("/.hidden"), Some(s(".hidden")));
}

#[test]
fn plan_rejects_other_methods_first() {
    assert!(matches!(plan_static_request(RequestMethod::Other, "/../x", "site"), StaticRequest::MethodNotAllowed));
    assert!(matches!(plan_static_request(RequestMethod::Get, "/../x", "site"), StaticRequest::BadRequest));
    match plan_static_request(RequestMethod::Head, "/a.txt", "site") {
        StaticRequest::Serve { target, is_head } => {
            assert_eq!(target, "site/a.txt");
            assert!(is_head);
        }
        other => panic!("unexpected {other:?}"),
    }
    match plan_static_request(RequestMethod::Get, "/", "/srv/site/") {
        StaticRequest::Serve { target, is_head } => {
            assert_eq!(target, "/srv/site/index.html");
            assert!(!is_head);
        }
        other => panic!("unexpected {other:?}"),
    }
}

#[test]
fn directory_index_appends_index_html() {
    assert_eq!(directory_index("site/docs"), "site/docs/index.html");
    assert_eq!(directory_index("site/"), "site/index.html");
    assert_eq!(served_file("site/docs", true), "site/docs/index.html");
    assert_eq!(served_file("site/a.txt", false), "site/a.txt");
}

#[test]
fn fixed_responses() {
    let r = method_not_allowed();
    assert_eq!(r.status, 405);
    assert_eq!(r.headers, vec![(s("allow"), s("GET, HEAD"))]);
    assert!(matches!(r.body, Body::Empty));
    let r = bad_request();
    assert_eq!(r.status, 400);
    assert!(matches!(r.body, Body::Text(ref t) if t == "Invalid path"));
    let r = not_found();
    assert_eq!(r.status, 404);
    assert!(matches!(r.body, Body::Text(ref t) if t == "404 Not Found"));
}

#[test]
fn metadata_decides_response() {
    assert!(matches!(serve_after_metadata(FileMetadata::Missing, false, "text/html"), ServeStep::Respond(r) if r.status == 404));
    assert!(matches!(serve_after_metadata(FileMetadata::NotAFile, true, "text/html"), ServeStep::Respond(r) if r.status == 404));
}

#[test]
fn get_reads_file_head_does_not() {
    let meta = FileMetadata::File { len: 1234, modified: Some(784111777) };
    let get = match serve_after_metadata(meta, false, "application/pdf") {
        ServeStep::ReadFile(r) => r,
        other => panic!("unexpected {other:?}"),
    };
    let head = match serve_after_metadata(meta, true, "application/pdf") {
        ServeStep::Respond(r) => r,
        other => panic!("unexpected {other:?}"),
    };
    let expected = vec![
        (s("content-type"), s("application/pdf")),
        (s("content-length"), s("1234")),
        (s("last-modified"), s("Sun, 06 Nov 1994 08:49:37 GMT")),
    ];
    assert_eq!(get.status, 200);
    assert_eq!(get.headers, expected);
    assert!(matches!(get.body, Body::File));
    assert_eq!(head.status, 200);
    assert_eq!(head.headers, expected);
    assert!(matches!(head.body, Body::Empty));
}

#[test]
fn missing_modification_time_has_no_header() {
    match serve_after_metadata(FileMetadata::File { len: 0, modified: None }, true, "text/plain") {
        ServeStep::Respond(r) => {
            assert_eq!(r.headers, vec![(s("content-type"), s("text/plain")), (s("content-length"), s("0"))])
        }
        other => panic!("unexpected {other:?}"),
    }
    match serve_after_metadata(FileMetadata::File { len: 1, modified: Some(0) }, true, "x") {
        ServeStep::Respond(r) => assert_eq!(r.headers[2].1, "Thu, 01 Jan 1970 00:00:00 GMT"),
        other => panic!("unexpected {other:?}"),
    }
}

#[test]
fn after_read() {
    let prepared = match serve_after_metadata(FileMetadata::File { len: 3, modified: None }, false, "t") {
        ServeStep::ReadFile(r) => r,
        other => panic!("unexpected {other:?}"),
    };
    assert_eq!(serve_after_read(prepared.clone(), FileRead::Done).status, 200);
    let gone = serve_after_read(prepared, FileRead::Missing);
    assert_eq!(gone.status, 404);
    assert!(matches!(gone.body, Body::Text(ref t) if t == "404 Not Found"));
}

#[test]
fn timestamps_and_log_lines() {
    assert_eq!(timestamp(Some(1700000000123)), "1700000000123");
    assert_eq!(timestamp(None), "0");
    assert_eq!(timestamp(Some(u128::MAX)), u128::MAX.to_string());
    assert_eq!(log_line(Some(42), "GET / 200 OK 3ms"), "42: GET / 200 OK 3ms");
    assert_eq!(error_line(None, "Client error"), "ERROR 0: Client error");
}

#[test]
fn status_complaints() {
    assert_eq!(status_complaint(500), Some(s("Internal error")));
    assert_eq!(status_complaint(503), Some(s("Internal error")));
    assert_eq!(status_complaint(404), Some(s("Client error")));
    assert_eq!(status_complaint(200), None);
    assert_eq!(status_complaint(302), None);
    assert_eq!(status_complaint(600), None);
}

#[test]
fn served_paths_stay_below_base() {
    for uri in ["/", "/a/b.html", "//./x/./y", "/docs/"] {
        let relative = safe_request_path(uri).unwrap();
        let served = components(&join("/srv/site", &relative));
        let base = components("/srv/site");
        assert_eq!(&served[..base.len()], &base[..]);
        assert!(!served[base.len()..].iter().any(|c| c == ".."));
        let index = components(&directory_index(&join("/srv/site", &relative)));
        assert_eq!(index.last().unwrap(), "index.html");
    }
}

#[test]
fn request_log_messages() {
    assert_eq!(request_log_message("GET", "/index.html", "200 OK", 3), "GET /index.html 200 OK 3ms");
    assert_eq!(request_log_message("HEAD", "/x?y=1", "404 Not Found", 0), "HEAD /x?y=1 404 Not Found 0ms");
}
