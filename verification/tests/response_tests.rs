use thttp::mime::content_type_for;
use thttp::response::{respond_with_file, Body, FsError};

#[test]
fn content_types_follow_the_extension() {
    assert_eq!(content_type_for("index.html").as_str(), "text/html");
    assert_eq!(content_type_for("page.htm").as_str(), "text/html");
    assert_eq!(content_type_for("style.css").as_str(), "text/css");
    assert_eq!(content_type_for("app.js").as_str(), "application/javascript");
    assert_eq!(content_type_for("data.json").as_str(), "application/json");
    assert_eq!(content_type_for("a.txt").as_str(), "text/plain");
    assert_eq!(content_type_for("pic.png").as_str(), "image/png");
    assert_eq!(content_type_for("pic.jpg").as_str(), "image/jpeg");
    assert_eq!(content_type_for("pic.jpeg").as_str(), "image/jpeg");
    assert_eq!(content_type_for("anim.gif").as_str(), "image/gif");
    assert_eq!(content_type_for("art.svg").as_str(), "image/svg+xml");
    assert_eq!(content_type_for("fav.ico").as_str(), "image/x-icon");
    assert_eq!(content_type_for("doc.pdf").as_str(), "application/pdf");
    assert_eq!(content_type_for("mod.wasm").as_str(), "application/wasm");
    assert_eq!(content_type_for("feed.xml").as_str(), "application/xml");
}

#[test]
fn unknown_extensions_are_octet_streams() {
    assert_eq!(content_type_for("archive.tar.gz").as_str(), "application/octet-stream");
    assert_eq!(content_type_for("noext").as_str(), "application/octet-stream");
    assert_eq!(content_type_for("trailing.").as_str(), "application/octet-stream");
    assert_eq!(content_type_for("").as_str(), "application/octet-stream");
}

#[test]
fn the_last_dot_decides_the_extension() {
    assert_eq!(content_type_for("a.min.js").as_str(), "application/javascript");
    assert_eq!(content_type_for("b.html.txt").as_str(), "text/plain");
}

#[test]
fn successful_read_is_served_whole() {
    let r = respond_with_file("a.txt", Ok(b"hello".to_vec()));
    assert_eq!(r.status, 200);
    assert_eq!(r.content_type.as_str(), "text/plain");
    match r.body {
        Body::Bytes(b) => assert_eq!(b, b"hello".to_vec()),
        Body::Text(_) => panic!("expected the file bytes"),
    }
}

#[test]
fn missing_file_is_404() {
    let r = respond_with_file("missing.txt", Err(FsError::NotFound));
    assert_eq!(r.status, 404);
}

#[test]
fn permission_denied_is_500() {
    let r = respond_with_file("a.txt", Err(FsError::PermissionDenied));
    assert_eq!(r.status, 500);
}

#[test]
fn other_read_failures_are_500() {
    let r = respond_with_file("a.txt", Err(FsError::Other));
    assert_eq!(r.status, 500);
}
