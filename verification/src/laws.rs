//! The serving policy's guarantees, stated across the modules that carry
//! them: how the startup mode, the per-request routing and the responders
//! combine.

use vstd::prelude::*;
use crate::paths::joined;
use crate::serve::{ModeV, RouteV, mode_spec, target_spec, route_spec};
use crate::response::{BodyV, FsError, file_response};
use crate::listing::{EntryV, listing_response};

verus! {

/// In listing mode, a request path that resolves to anything but a
/// directory is routed to the static file responder, and a successful read
/// answers 200 with exactly the bytes read from the file.
pub proof fn lemma_listing_mode_serves_files(
    resolved: Seq<char>,
    name: Seq<char>,
    bytes: Seq<u8>,
)
    ensures
        route_spec(ModeV::DirectoryListing, resolved, false) == RouteV::File(resolved),
        file_response(name, Result::Ok(bytes)).status == 200,
        file_response(name, Result::Ok(bytes)).body == BodyV::Bytes(bytes),
{
}

/// In index mode the root URL aims at the configured index path, whatever
/// the root directory is and whatever else it holds, the route is always
/// the static file responder, and a successful read answers 200 with
/// exactly the index file's bytes.
pub proof fn lemma_index_mode_serves_index_at_root(
    index_path: Seq<char>,
    root: Seq<char>,
    resolved: Seq<char>,
    is_dir: bool,
    bytes: Seq<u8>,
)
    ensures
        target_spec(ModeV::IndexFile(index_path), root, Seq::empty()) == index_path,
        route_spec(ModeV::IndexFile(index_path), resolved, is_dir) == RouteV::File(resolved),
        file_response(index_path, Result::Ok(bytes)).status == 200,
        file_response(index_path, Result::Ok(bytes)).body == BodyV::Bytes(bytes),
{
}

/// In index mode any request path other than the root URL is joined under
/// the root and served as a plain static file, not index-aware.
pub proof fn lemma_index_mode_other_paths_are_static(
    index_path: Seq<char>,
    root: Seq<char>,
    request: Seq<char>,
)
    requires
        request.len() > 0,
    ensures
        target_spec(ModeV::IndexFile(index_path), root, request) == joined(root, request),
{
}

/// When the configured index file does not exist under the root, the
/// server starts in listing mode, and the root URL, which resolves to the
/// root directory itself, is answered with a directory listing carrying
/// status 200, not with a 404.
pub proof fn lemma_no_index_starts_listing(
    root: Seq<char>,
    index_name: Seq<char>,
    resolved: Seq<char>,
    entries: Seq<EntryV>,
)
    ensures
        mode_spec(root, index_name, false) == ModeV::DirectoryListing,
        route_spec(ModeV::DirectoryListing, resolved, true) == RouteV::Listing(resolved),
        listing_response(entries).status == 200,
{
}

/// A request whose target does not exist on disk reads as missing and is
/// answered 404, and only a missing file is: every other read failure is a
/// 500.
pub proof fn lemma_missing_target_is_404(name: Seq<char>, e: FsError)
    ensures
        file_response(name, Result::Err(FsError::NotFound)).status == 404,
        e != FsError::NotFound ==> file_response(name, Result::Err(e)).status == 500,
{
}

} // verus!
