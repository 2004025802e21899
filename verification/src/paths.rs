//! Mapping a request path onto the filesystem root.
//!
//! A request path is joined textually under the configured root, then the
//! joined path is canonicalized against the real filesystem.  When
//! canonicalization fails (the path does not exist, a permission error, ...)
//! the joined path is kept unchanged, so that the later file open can still
//! fail with a sensible path instead of aborting resolution.

use vstd::prelude::*;

verus! {

/// The textual join of a request path under a root directory: the root,
/// a separator, and the request path; the root alone when the request path
/// is empty (the root URL).
pub open spec fn joined(root: Seq<char>, request: Seq<char>) -> Seq<char> {
    if request.len() == 0 {
        root
    } else {
        root + "/"@ + request
    }
}

/// Joins a request path textually under the root.
pub fn join_under_root(root: &str, request: &str) -> (r: String)
    ensures
        r@ == joined(root@, request@),
{
    if request.unicode_len() == 0 {
        root.to_owned()
    } else {
        let mut s = root.to_owned();
        s.append("/");
        s.append(request);
        s
    }
}

/// Relies on `std::path::Path::canonicalize`: on success the canonical,
/// absolute form of the path, with `.` and `..` collapsed and symlinks
/// resolved, which is never empty; an error when the path does not exist or
/// cannot be resolved.  A canonical path that is not valid UTF-8 is treated
/// as a failure as well.
#[verifier::external_body]
fn canonicalize_path(p: &str) -> (r: Option<String>)
    ensures
        r matches Option::Some(c) ==> c@.len() > 0,
{
    match std::path::Path::new(p).canonicalize() {
        Ok(pb) => pb.into_os_string().into_string().ok(),
        Err(_) => None,
    }
}

/// Relies on `std::path::Path::is_file`: whether the path names an existing
/// regular file on disk.  The answer depends on the filesystem, so nothing
/// is claimed of it.
#[verifier::external_body]
pub(crate) fn path_is_file(p: &str) -> bool {
    std::path::Path::new(p).is_file()
}

/// Relies on `std::path::Path::is_dir`: whether the path names an existing
/// directory on disk.  The answer depends on the filesystem, so nothing is
/// claimed of it.
#[verifier::external_body]
pub(crate) fn path_is_dir(p: &str) -> bool {
    std::path::Path::new(p).is_dir()
}

/// The canonicalization fallback: keep the canonical path when
/// canonicalization succeeded, and the joined path unchanged when it failed.
pub fn canonical_or_joined(joined: String, canonical: Option<String>) -> (r: String)
    ensures
        r@ == (match canonical {
            Option::Some(c) => c@,
            Option::None => joined@,
        }),
{
    match canonical {
        Option::Some(c) => c,
        Option::None => joined,
    }
}

/// Resolves a joined path against the real filesystem.  The flag says
/// whether canonicalization succeeded; when it failed, the path comes back
/// unchanged, so that the later file open can report it.
pub fn resolve_request(path: String) -> (r: (String, bool))
    ensures
        !r.1 ==> r.0@ == path@,
        r.1 ==> r.0@.len() > 0,
{
    let canonical = canonicalize_path(path.as_str());
    let ok = canonical.is_some();
    let out = canonical_or_joined(path, canonical);
    (out, ok)
}

} // verus!
