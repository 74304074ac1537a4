use dev_server::content_type::ContentType;
use dev_server::framing::{HeaderError, HeaderReader, ReadStep};
use dev_server::handler::{default_request_handler, HandlerError, PathKind, Step};
use dev_server::response::{Response, Status};

/// What stands at `path` in a file system that holds `files` and nothing
/// else.
fn lookup(files: &[(&str, PathKind)], path: &str) -> PathKind {
    for (name, kind) in files {
        if *name == path {
            return *kind;
        }
    }
    PathKind::Missing
}

/// Drives the handler to its end against `files`. Gives the last step and
/// the paths that were asked about, in order.
fn handle(
    header: &str,
    root: &str,
    fallback: Option<&str>,
    files: &[(&str, PathKind)],
) -> (Step, Vec<String>) {
    let mut probed = Vec::new();
    let mut step =
        default_request_handler(header, root.to_string(), fallback.map(|f| f.to_string()));
    loop {
        match step {
            Step::Probe(pending) => {
                let path = pending.path().to_string();
                let kind = lookup(files, &path);
                probed.push(path);
                step = pending.resume(kind);
            }
            last => return (last, probed),
        }
    }
}

fn response(step: Step) -> Response {
    match step {
        Step::Respond(response) => response,
        Step::Fail(error) => panic!("the request was given up: {}", error.message()),
        Step::Probe(_) => panic!("the request is not done"),
    }
}

fn failure(step: Step) -> HandlerError {
    match step {
        Step::Fail(error) => error,
        _ => panic!("the request was not given up"),
    }
}

fn get(target: &str) -> String {
    format!("GET {} HTTP/1.1\r\nHost: localhost:8000\r\n\r\n", target)
}

#[test]
fn existing_file_is_served_with_its_length_and_type() {
    let files = [("dist/app.js", PathKind::File { len: 321 })];
    let (step, probed) = handle(&get("/app.js"), "dist", None, &files);
    assert_eq!(probed, vec!["dist/app.js".to_string()]);
    let response = response(step);
    assert_eq!(
        response,
        Response::File {
            path: "dist/app.js".to_string(),
            len: 321,
            content_type: ContentType::JavaScript,
        }
    );
    assert_eq!(
        response.head(),
        "HTTP/1.1 200 OK\r\nContent-Length: 321\r\nContent-Type: application/javascript\r\n\r\n"
    );
}

#[test]
fn serving_the_same_file_twice_gives_the_same_response() {
    let files = [
        ("dist/style.css", PathKind::File { len: 77 }),
        ("dist/404.html", PathKind::File { len: 5 }),
    ];
    let (first, _) = handle(&get("/style.css"), "dist", None, &files);
    let (second, _) = handle(&get("/style.css"), "dist", None, &files);
    let (third, _) = handle(&get("/style.css"), "dist", Some("404.html"), &files);
    let first = response(first);
    let second = response(second);
    let third = response(third);
    assert_eq!(first, second);
    assert_eq!(first, third);
    assert_eq!(first.head(), second.head());
    assert_eq!(
        first.head(),
        "HTTP/1.1 200 OK\r\nContent-Length: 77\r\nContent-Type: text/css;charset=utf-8\r\n\r\n"
    );
}

#[test]
fn root_request_is_answered_with_index_html() {
    let files = [("dist/", PathKind::Directory), ("dist/index.html", PathKind::File { len: 1024 })];
    let (step, probed) = handle(&get("/"), "dist", None, &files);
    assert_eq!(probed, vec!["dist/".to_string(), "dist/index.html".to_string()]);
    let response = response(step);
    assert_eq!(response.status(), Status::Success);
    assert_eq!(
        response,
        Response::File {
            path: "dist/index.html".to_string(),
            len: 1024,
            content_type: ContentType::Html,
        }
    );
    assert_eq!(
        response.head(),
        "HTTP/1.1 200 OK\r\nContent-Length: 1024\r\nContent-Type: text/html;charset=utf-8\r\n\r\n"
    );
}

#[test]
fn directory_without_index_html_is_answered_with_index_htm() {
    let files = [
        ("/srv/www/docs", PathKind::Directory),
        ("/srv/www/docs/index.htm", PathKind::File { len: 9 }),
    ];
    let (step, probed) = handle(&get("/docs/"), "/srv/www", None, &files);
    assert_eq!(
        probed,
        vec![
            "/srv/www/docs".to_string(),
            "/srv/www/docs/index.html".to_string(),
            "/srv/www/docs/index.htm".to_string(),
        ]
    );
    assert_eq!(
        response(step),
        Response::File {
            path: "/srv/www/docs/index.htm".to_string(),
            len: 9,
            content_type: ContentType::OctetStream,
        }
    );
}

#[test]
fn directory_without_index_is_an_error() {
    let files = [("dist/assets", PathKind::Directory)];
    let (step, probed) = handle(&get("/assets"), "dist", None, &files);
    assert_eq!(probed.len(), 3);
    let error = failure(step);
    assert_eq!(error, HandlerError::NoIndex { directory: "dist/assets".to_string() });
    assert_eq!(error.message(), "no index.html in dist/assets");
    let (step, _) = handle(&get("/assets"), "dist", Some("404.html"), &files);
    assert_eq!(failure(step), HandlerError::NoIndex { directory: "dist/assets".to_string() });
}

#[test]
fn missing_path_without_fallback_is_not_found() {
    let files = [("dist/index.html", PathKind::File { len: 10 })];
    let (step, probed) = handle(&get("/nope.html"), "dist", None, &files);
    assert_eq!(probed, vec!["dist/nope.html".to_string()]);
    let response = response(step);
    assert_eq!(response, Response::NotFound { path: "dist/nope.html".to_string() });
    assert_eq!(response.status(), Status::NotFound);
    assert_eq!(response.head(), "HTTP/1.1 404 NOT FOUND\r\n\r\n");
}

#[test]
fn missing_path_with_fallback_is_answered_with_the_fallback() {
    let files = [("dist/404.html", PathKind::File { len: 42 })];
    let (step, probed) = handle(&get("/nope/deeper"), "dist", Some("404.html"), &files);
    assert_eq!(probed, vec!["dist/nope/deeper".to_string(), "dist/404.html".to_string()]);
    let response = response(step);
    assert_eq!(
        response,
        Response::File {
            path: "dist/404.html".to_string(),
            len: 42,
            content_type: ContentType::Html,
        }
    );
    assert_eq!(
        response.head(),
        "HTTP/1.1 200 OK\r\nContent-Length: 42\r\nContent-Type: text/html;charset=utf-8\r\n\r\n"
    );
}

#[test]
fn fallback_that_is_missing_too_is_not_found() {
    let (step, probed) = handle(&get("/nope"), "dist", Some("404.html"), &[]);
    assert_eq!(probed, vec!["dist/nope".to_string(), "dist/404.html".to_string()]);
    assert_eq!(response(step), Response::NotFound { path: "dist/404.html".to_string() });
}

#[test]
fn fallback_is_joined_to_the_root_not_to_the_request() {
    let files = [
        ("dist/a/b/404.html", PathKind::File { len: 1 }),
        ("dist/a/404.html", PathKind::File { len: 2 }),
    ];
    let (step, _) = handle(&get("/a/b/c"), "dist", Some("a/404.html"), &files);
    assert_eq!(
        response(step),
        Response::File {
            path: "dist/a/404.html".to_string(),
            len: 2,
            content_type: ContentType::Html,
        }
    );
}

#[test]
fn index_that_is_no_file_falls_back_or_is_not_found() {
    let files = [
        ("dist/docs", PathKind::Directory),
        ("dist/docs/index.html", PathKind::Directory),
        ("dist/docs/index.htm", PathKind::File { len: 3 }),
        ("dist/other.txt", PathKind::File { len: 8 }),
    ];
    let (step, probed) = handle(&get("/docs"), "dist", None, &files);
    assert_eq!(probed, vec!["dist/docs".to_string(), "dist/docs/index.html".to_string()]);
    assert_eq!(response(step), Response::NotFound { path: "dist/docs/index.html".to_string() });
    let (step, _) = handle(&get("/docs"), "dist", Some("other.txt"), &files);
    assert_eq!(
        response(step),
        Response::File {
            path: "dist/other.txt".to_string(),
            len: 8,
            content_type: ContentType::OctetStream,
        }
    );
}

#[test]
fn what_is_neither_file_nor_directory_is_not_found() {
    let files = [("dist/socket", PathKind::Other)];
    let (step, _) = handle(&get("/socket"), "dist", None, &files);
    assert_eq!(response(step), Response::NotFound { path: "dist/socket".to_string() });
}

#[test]
fn query_does_not_change_the_answer() {
    let files = [("dist/page.html", PathKind::File { len: 64 })];
    let (plain, plain_probed) = handle(&get("/page.html"), "dist", None, &files);
    let (queried, queried_probed) = handle(&get("/page.html?x=1&y=2"), "dist", None, &files);
    assert_eq!(plain_probed, queried_probed);
    let plain = response(plain);
    let queried = response(queried);
    assert_eq!(plain, queried);
    assert_eq!(
        queried,
        Response::File {
            path: "dist/page.html".to_string(),
            len: 64,
            content_type: ContentType::Html,
        }
    );
}

#[test]
fn request_without_a_path_is_given_up() {
    let (step, probed) = handle("GET\r\n\r\n", "dist", None, &[]);
    assert!(probed.is_empty());
    let error = failure(step);
    assert_eq!(error, HandlerError::MissingPath);
    assert_eq!(error.message(), "Could not find path in request");
}

#[test]
fn dots_in_the_path_are_joined_as_they_are() {
    let files = [("dist/../secret.txt", PathKind::File { len: 6 })];
    let (step, probed) = handle(&get("/../secret.txt"), "dist", None, &files);
    assert_eq!(probed, vec!["dist/../secret.txt".to_string()]);
    assert_eq!(response(step).status(), Status::Success);
}

#[test]
fn content_type_goes_by_the_extension_of_the_file_served() {
    let files = [
        ("dist/a.html", PathKind::File { len: 1 }),
        ("dist/a.css", PathKind::File { len: 1 }),
        ("dist/a.js", PathKind::File { len: 1 }),
        ("dist/a.wasm", PathKind::File { len: 1 }),
        ("dist/a.xyz", PathKind::File { len: 1 }),
        ("dist/a", PathKind::File { len: 1 }),
        ("dist/.html", PathKind::File { len: 1 }),
        ("dist/a.tar.js", PathKind::File { len: 1 }),
        ("dist/a.HTML", PathKind::File { len: 1 }),
    ];
    let expected = [
        ("/a.html", ContentType::Html),
        ("/a.css", ContentType::Css),
        ("/a.js", ContentType::JavaScript),
        ("/a.wasm", ContentType::Wasm),
        ("/a.xyz", ContentType::OctetStream),
        ("/a", ContentType::OctetStream),
        ("/.html", ContentType::OctetStream),
        ("/a.tar.js", ContentType::JavaScript),
        ("/a.HTML", ContentType::OctetStream),
    ];
    for (target, content_type) in expected {
        let (step, _) = handle(&get(target), "dist", None, &files);
        match response(step) {
            Response::File { content_type: found, .. } => assert_eq!(found, content_type),
            _ => panic!("the file exists"),
        }
    }
}

/// One connection: the header is read off `stream` in windows of `window`
/// bytes, then the request is handled against `files`. Gives the head of the
/// response, which is that of a 500 where anything failed.
fn connection(stream: &[u8], window: usize, files: &[(&str, PathKind)]) -> String {
    let mut reader = HeaderReader::new();
    let mut taken = 0;
    let header = loop {
        let end = (taken + window).min(stream.len());
        match reader.advance(&stream[taken..end]) {
            ReadStep::Continue { reader: next, consume } => {
                reader = next;
                taken += consume;
            }
            ReadStep::Complete { header, .. } => break Ok(header),
            ReadStep::Failed { error, .. } => break Err(error),
        }
    };
    match header {
        Err(_) => Response::InternalServerError.head(),
        Ok(header) => match handle(&header, "dist", None, files).0 {
            Step::Respond(response) => response.head(),
            _ => Response::InternalServerError.head(),
        },
    }
}

#[test]
fn a_failing_connection_leaves_the_other_alone() {
    let files = [("dist/index.html", PathKind::File { len: 12 })];
    let good = b"GET /index.html HTTP/1.1\r\nHost: localhost\r\n\r\n";
    let bad = b"GET /index.html HTTP/1.1\r\nHost: localhost\r\n";

    let mut good_reader = HeaderReader::new();
    let mut bad_reader = HeaderReader::new();
    let mut good_taken = 0;
    let mut bad_taken = 0;
    let mut good_header = None;
    let mut bad_outcome = None;
    while good_header.is_none() || bad_outcome.is_none() {
        if bad_outcome.is_none() {
            let end = (bad_taken + 16).min(bad.len());
            match bad_reader.advance(&bad[bad_taken..end]) {
                ReadStep::Continue { reader, consume } => {
                    bad_reader = reader;
                    bad_taken += consume;
                }
                ReadStep::Complete { header, .. } => {
                    bad_reader = HeaderReader::new();
                    bad_outcome = Some(Ok(header));
                }
                ReadStep::Failed { error, .. } => {
                    bad_reader = HeaderReader::new();
                    bad_outcome = Some(Err(error));
                }
            }
        }
        if good_header.is_none() {
            let end = (good_taken + 16).min(good.len());
            match good_reader.advance(&good[good_taken..end]) {
                ReadStep::Continue { reader, consume } => {
                    good_reader = reader;
                    good_taken += consume;
                }
                ReadStep::Complete { header, .. } => {
                    good_reader = HeaderReader::new();
                    good_header = Some(header);
                }
                ReadStep::Failed { .. } => panic!("the header is whole"),
            }
        }
    }
    assert_eq!(bad_outcome, Some(Err(HeaderError::UnexpectedEof)));
    assert_eq!(bad_taken, bad.len());
    let header = good_header.unwrap();
    assert_eq!(header.as_bytes(), good);
    let (step, _) = handle(&header, "dist", None, &files);
    assert_eq!(
        response(step).head(),
        "HTTP/1.1 200 OK\r\nContent-Length: 12\r\nContent-Type: text/html;charset=utf-8\r\n\r\n"
    );

    assert_eq!(connection(bad, 16, &files), "HTTP/1.1 500 INTERNAL SERVER ERROR\r\n\r\n");
    assert_eq!(
        connection(good, 16, &files),
        "HTTP/1.1 200 OK\r\nContent-Length: 12\r\nContent-Type: text/html;charset=utf-8\r\n\r\n"
    );
}

#[test]
fn connection_with_a_body_is_answered_from_its_header() {
    let files = [("dist/form", PathKind::File { len: 3 })];
    let stream = b"POST /form?id=7 HTTP/1.1\r\nContent-Length: 11\r\n\r\nGET /other ";
    assert_eq!(
        connection(stream, 4096, &files),
        "HTTP/1.1 200 OK\r\nContent-Length: 3\r\nContent-Type: application/octet-stream\r\n\r\n"
    );
}
