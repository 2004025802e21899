//! The serving mode and the per-request routing policy.
//!
//! The mode is fixed once at startup: when `root/indexFileName` exists as a
//! regular file the server always answers the root URL with that file;
//! otherwise it always shows directory listings.  Per request, the policy
//! picks a target path from the mode and the raw request path, resolves it,
//! and routes it either to the static file responder or to the directory
//! listing responder.

use vstd::prelude::*;
use crate::paths::{joined, join_under_root, resolve_request, path_is_file, path_is_dir};

verus! {

/// The startup-fixed serving mode.  `IndexFile` carries the joined path of
/// the configured index file under the root.
pub enum ServingMode {
    IndexFile(String),
    DirectoryListing,
}

/// The mathematical value of a serving mode.
pub enum ModeV {
    IndexFile(Seq<char>),
    DirectoryListing,
}

impl View for ServingMode {
    type V = ModeV;

    open spec fn view(&self) -> ModeV {
        match self {
            ServingMode::IndexFile(p) => ModeV::IndexFile(p@),
            ServingMode::DirectoryListing => ModeV::DirectoryListing,
        }
    }
}

/// The mode owed for a root, an index file name, and whether the joined
/// index path names a regular file.
pub open spec fn mode_spec(root: Seq<char>, index_name: Seq<char>, index_is_file: bool) -> ModeV {
    if index_is_file {
        ModeV::IndexFile(joined(root, index_name))
    } else {
        ModeV::DirectoryListing
    }
}

/// Derives the serving mode from the configuration and the startup test of
/// the index file.
pub fn determine_mode(root: &str, index_name: &str, index_is_file: bool) -> (m: ServingMode)
    ensures
        m@ == mode_spec(root@, index_name@, index_is_file),
{
    if index_is_file {
        ServingMode::IndexFile(join_under_root(root, index_name))
    } else {
        ServingMode::DirectoryListing
    }
}

/// Chooses the serving mode once at startup, testing on disk whether the
/// joined index path names a regular file.  The test depends on the
/// filesystem; whichever way it goes, the mode follows `mode_spec` for the
/// joined index path.
pub fn startup_mode(root: &str, index_name: &str) -> (m: ServingMode)
    ensures
        m@ == mode_spec(root@, index_name@, m@ is IndexFile),
{
    let index_path = join_under_root(root, index_name);
    let exists = path_is_file(index_path.as_str());
    if exists {
        ServingMode::IndexFile(index_path)
    } else {
        ServingMode::DirectoryListing
    }
}

/// The filesystem path a request aims at, before resolution: in index mode
/// the root URL aims at the configured index path and every other request
/// path is joined under the root; in listing mode every request path is
/// joined under the root.
pub open spec fn target_spec(m: ModeV, root: Seq<char>, request: Seq<char>) -> Seq<char> {
    match m {
        ModeV::IndexFile(p) => if request.len() == 0 {
            p
        } else {
            joined(root, request)
        },
        ModeV::DirectoryListing => joined(root, request),
    }
}

/// Picks the target path for a request.
pub fn select_target(mode: &ServingMode, root: &str, request: &str) -> (t: String)
    ensures
        t@ == target_spec(mode@, root@, request@),
{
    match mode {
        ServingMode::IndexFile(p) => {
            if request.unicode_len() == 0 {
                p.clone()
            } else {
                join_under_root(root, request)
            }
        },
        ServingMode::DirectoryListing => join_under_root(root, request),
    }
}

/// Where a resolved path is sent: to the static file responder, or to the
/// directory listing responder.
pub enum Route {
    File(String),
    Listing(String),
}

/// The mathematical value of a route.
pub enum RouteV {
    File(Seq<char>),
    Listing(Seq<char>),
}

impl View for Route {
    type V = RouteV;

    open spec fn view(&self) -> RouteV {
        match self {
            Route::File(p) => RouteV::File(p@),
            Route::Listing(p) => RouteV::Listing(p@),
        }
    }
}

/// The route owed for a mode and a resolved path: index mode always serves
/// a file; listing mode lists a path that resolved to a directory and
/// serves anything else as a file.
pub open spec fn route_spec(m: ModeV, resolved: Seq<char>, is_dir: bool) -> RouteV {
    match m {
        ModeV::IndexFile(_) => RouteV::File(resolved),
        ModeV::DirectoryListing => if is_dir {
            RouteV::Listing(resolved)
        } else {
            RouteV::File(resolved)
        },
    }
}

/// Routes a resolved path by the serving mode.
pub fn dispatch(mode: &ServingMode, resolved: String, resolved_is_dir: bool) -> (r: Route)
    ensures
        r@ == route_spec(mode@, resolved@, resolved_is_dir),
{
    match mode {
        ServingMode::IndexFile(_) => Route::File(resolved),
        ServingMode::DirectoryListing => {
            if resolved_is_dir {
                Route::Listing(resolved)
            } else {
                Route::File(resolved)
            }
        },
    }
}

/// Plans one request: picks the target path, resolves it against the disk,
/// and routes it.  The flag says whether canonicalization succeeded; when
/// it failed, the routed path is exactly the unresolved target.  Whether
/// the path resolved to a directory depends on the disk, so in listing mode
/// either route may come back; index mode always routes to a file.
pub fn plan_request(mode: &ServingMode, root: &str, request: &str) -> (r: (Route, bool))
    ensures
        mode@ is IndexFile ==> r.0@ is File,
        !r.1 ==> (match r.0@ {
            RouteV::File(p) => p == target_spec(mode@, root@, request@),
            RouteV::Listing(p) => p == target_spec(mode@, root@, request@),
        }),
        r.0@ is Listing ==> mode@ is DirectoryListing,
{
    let target = select_target(mode, root, request);
    let (resolved, ok) = resolve_request(target);
    let is_dir = path_is_dir(resolved.as_str());
    let route = dispatch(mode, resolved, is_dir);
    (route, ok)
}

} // verus!
