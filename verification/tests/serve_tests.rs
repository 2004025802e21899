use thttp::listing::{render_listing, sort_entries, DirEntry};
use thttp::response::{respond_with_file, Body, FsError};
use thttp::serve::{determine_mode, dispatch, select_target, Route, ServingMode};

fn entry(name: &str, is_dir: bool) -> DirEntry {
    DirEntry { name: name.to_string(), is_dir }
}

fn body_text(b: Body) -> String {
    match b {
        Body::Text(s) => s,
        Body::Bytes(_) => panic!("expected a text body"),
    }
}

#[test]
fn mode_is_index_when_the_index_file_exists() {
    let m = determine_mode("root", "index.html", true);
    match m {
        ServingMode::IndexFile(p) => assert_eq!(p.as_str(), "root/index.html"),
        ServingMode::DirectoryListing => panic!("expected index mode"),
    }
}

#[test]
fn mode_is_listing_when_the_index_file_is_missing() {
    let m = determine_mode("root", "index.html", false);
    assert!(matches!(m, ServingMode::DirectoryListing));
}

#[test]
fn index_mode_targets_the_index_at_the_root_url() {
    let m = ServingMode::IndexFile("root/index.html".to_string());
    assert_eq!(select_target(&m, "root", "").as_str(), "root/index.html");
}

#[test]
fn index_mode_targets_other_paths_under_the_root() {
    let m = ServingMode::IndexFile("root/index.html".to_string());
    assert_eq!(select_target(&m, "root", "index.html").as_str(), "root/index.html");
    assert_eq!(select_target(&m, "root", "other.txt").as_str(), "root/other.txt");
}

#[test]
fn listing_mode_targets_every_path_under_the_root() {
    let m = ServingMode::DirectoryListing;
    assert_eq!(select_target(&m, "root", "").as_str(), "root");
    assert_eq!(select_target(&m, "root", "sub/b.txt").as_str(), "root/sub/b.txt");
}

#[test]
fn index_mode_always_routes_to_a_file() {
    let m = ServingMode::IndexFile("root/index.html".to_string());
    let r = dispatch(&m, "root/index.html".to_string(), true);
    assert!(matches!(r, Route::File(_)));
}

#[test]
fn listing_mode_routes_directories_to_the_listing() {
    let m = ServingMode::DirectoryListing;
    match dispatch(&m, "root".to_string(), true) {
        Route::Listing(p) => assert_eq!(p.as_str(), "root"),
        Route::File(_) => panic!("expected the listing route"),
    }
    match dispatch(&m, "root/a.txt".to_string(), false) {
        Route::File(p) => assert_eq!(p.as_str(), "root/a.txt"),
        Route::Listing(_) => panic!("expected the file route"),
    }
}

#[test]
fn listing_is_rendered_in_name_order() {
    let r = render_listing(vec![entry("b.txt", false), entry("sub", true), entry("a.txt", false)]);
    assert_eq!(r.status, 200);
    assert_eq!(r.content_type.as_str(), "text/html");
    let page = body_text(r.body);
    assert_eq!(
        page.as_str(),
        "<html><body><ul>\
         <li><a href=\"a.txt\">a.txt</a></li>\
         <li><a href=\"b.txt\">b.txt</a></li>\
         <li><a href=\"sub/\">sub/</a></li>\
         </ul></body></html>"
    );
}

#[test]
fn listing_order_is_deterministic_across_enumeration_orders() {
    let one = render_listing(vec![entry("b.txt", false), entry("sub", true), entry("a.txt", false)]);
    let two = render_listing(vec![entry("sub", true), entry("a.txt", false), entry("b.txt", false)]);
    assert_eq!(body_text(one.body), body_text(two.body));
}

#[test]
fn sorting_puts_a_file_before_a_directory_of_the_same_name() {
    let sorted = sort_entries(vec![entry("x", true), entry("x", false)]);
    assert!(!sorted[0].is_dir);
    assert!(sorted[1].is_dir);
}

#[test]
fn startup_without_an_index_file_on_disk_lists() {
    let m = thttp::serve::startup_mode("surely/not/a/real/root", "index.html");
    assert!(matches!(m, ServingMode::DirectoryListing));
}

#[test]
fn empty_directory_renders_an_empty_listing() {
    let r = render_listing(vec![]);
    assert_eq!(r.status, 200);
    assert_eq!(body_text(r.body).as_str(), "<html><body><ul></ul></body></html>");
}

#[test]
fn listing_scenario_serves_files_listings_and_404() {
    // Root holds a.txt ("hello") and sub/b.txt; the server is in listing mode.
    let m = ServingMode::DirectoryListing;

    let t = select_target(&m, "root", "a.txt");
    assert_eq!(t.as_str(), "root/a.txt");
    let r = respond_with_file("a.txt", Ok(b"hello".to_vec()));
    assert_eq!(r.status, 200);
    match r.body {
        Body::Bytes(b) => assert_eq!(b, b"hello".to_vec()),
        Body::Text(_) => panic!("expected the file bytes"),
    }

    let t = select_target(&m, "root", "sub/b.txt");
    assert_eq!(t.as_str(), "root/sub/b.txt");
    let r = respond_with_file("b.txt", Ok(b"bee".to_vec()));
    assert_eq!(r.status, 200);

    let r = respond_with_file("missing.txt", Err(FsError::NotFound));
    assert_eq!(r.status, 404);

    let listing = render_listing(vec![entry("a.txt", false), entry("sub", true)]);
    assert_eq!(listing.status, 200);
    let page = body_text(listing.body);
    assert!(page.contains("<a href=\"a.txt\">"));
    assert!(page.contains("<a href=\"sub/\">"));
}

#[test]
fn index_scenario_serves_the_index_at_root_and_as_a_file() {
    // Root holds index.html ("<h1>hi</h1>"); the server is in index mode.
    let m = determine_mode("root", "index.html", true);

    let t = select_target(&m, "root", "");
    assert_eq!(t.as_str(), "root/index.html");
    let r = respond_with_file("index.html", Ok(b"<h1>hi</h1>".to_vec()));
    assert_eq!(r.status, 200);
    assert_eq!(r.content_type.as_str(), "text/html");
    match r.body {
        Body::Bytes(b) => assert_eq!(b, b"<h1>hi</h1>".to_vec()),
        Body::Text(_) => panic!("expected the file bytes"),
    }

    let t = select_target(&m, "root", "index.html");
    assert_eq!(t.as_str(), "root/index.html");
    let r = respond_with_file("index.html", Ok(b"<h1>hi</h1>".to_vec()));
    assert_eq!(r.status, 200);
    match r.body {
        Body::Bytes(b) => assert_eq!(b, b"<h1>hi</h1>".to_vec()),
        Body::Text(_) => panic!("expected the file bytes"),
    }
}
