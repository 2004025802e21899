//! Content types inferred from file extensions.
//!
//! The extension is everything after the last dot of the file name; a name
//! without a dot has the empty extension.  A fixed table maps the common web
//! extensions to their media types; everything else is served as an opaque
//! byte stream.

use vstd::prelude::*;
use crate::strings::str_eq;

verus! {

/// The position of the last dot in `s`, or `-1` when there is none.
pub open spec fn last_dot(s: Seq<char>) -> int
    decreases s.len(),
{
    if s.len() == 0 {
        -1
    } else if s[s.len() - 1] == '.' {
        s.len() - 1
    } else {
        last_dot(s.drop_last())
    }
}

/// The extension of a file name: the characters after the last dot, empty
/// when the name has no dot.
pub open spec fn extension_of(name: Seq<char>) -> Seq<char> {
    if last_dot(name) == -1 {
        Seq::empty()
    } else {
        name.subrange(last_dot(name) + 1, name.len() as int)
    }
}

/// The media type served for an extension.
pub open spec fn mime_of_ext(e: Seq<char>) -> Seq<char> {
    if e == "html"@ || e == "htm"@ {
        "text/html"@
    } else if e == "css"@ {
        "text/css"@
    } else if e == "js"@ {
        "application/javascript"@
    } else if e == "json"@ {
        "application/json"@
    } else if e == "txt"@ {
        "text/plain"@
    } else if e == "xml"@ {
        "application/xml"@
    } else if e == "png"@ {
        "image/png"@
    } else if e == "jpg"@ || e == "jpeg"@ {
        "image/jpeg"@
    } else if e == "gif"@ {
        "image/gif"@
    } else if e == "svg"@ {
        "image/svg+xml"@
    } else if e == "ico"@ {
        "image/x-icon"@
    } else if e == "pdf"@ {
        "application/pdf"@
    } else if e == "wasm"@ {
        "application/wasm"@
    } else {
        "application/octet-stream"@
    }
}

/// The media type served for a file name.
pub open spec fn content_type_spec(name: Seq<char>) -> Seq<char> {
    mime_of_ext(extension_of(name))
}

/// `last_dot` is in range, and names a dot with none after it.
pub proof fn lemma_last_dot_ensures(s: Seq<char>)
    ensures
        -1 <= last_dot(s) < s.len(),
        last_dot(s) >= 0 ==> s[last_dot(s)] == '.',
        forall|j: int| last_dot(s) < j < s.len() ==> s[j] != '.',
    decreases s.len(),
{
    if s.len() > 0 && s[s.len() - 1] != '.' {
        lemma_last_dot_ensures(s.drop_last());
        assert forall|j: int| last_dot(s) < j < s.len() implies s[j] != '.' by {
            if j < s.len() - 1 {
                assert(s.drop_last()[j] == s[j]);
            }
        }
    }
}

/// Finds the position after the last dot of `name`, or `0` when there is
/// no dot (so that the extension starts nowhere useful and comes out empty
/// only via its length).
fn ext_start(name: &str) -> (r: usize)
    ensures
        r == last_dot(name@) + 1 || (last_dot(name@) == -1 && r == name@.len()),
        last_dot(name@) == -1 ==> r == name@.len(),
        last_dot(name@) >= 0 ==> r == last_dot(name@) + 1,
{
    let len: usize = name.unicode_len();
    let mut j: usize = len;
    proof {
        assert(name@.subrange(0, len as int) =~= name@);
    }
    loop
        invariant
            j <= len,
            len == name@.len(),
            last_dot(name@) == last_dot(name@.subrange(0, j as int)),
        decreases j,
    {
        if j == 0 {
            proof {
                assert(name@.subrange(0, 0) =~= Seq::<char>::empty());
            }
            return len;
        }
        let c = name.get_char(j - 1);
        proof {
            let pre = name@.subrange(0, j as int);
            assert(pre[j - 1] == name@[j - 1]);
            assert(pre.drop_last() =~= name@.subrange(0, j - 1));
        }
        if c == '.' {
            return j;
        }
        j = j - 1;
    }
}

/// The media type served for a file name, from its extension.
pub fn content_type_for(name: &str) -> (r: String)
    ensures
        r@ == content_type_spec(name@),
{
    let len: usize = name.unicode_len();
    let start = ext_start(name);
    proof {
        lemma_last_dot_ensures(name@);
    }
    let ext: &str = name.substring_char(start, len);
    proof {
        if last_dot(name@) == -1 {
            assert(ext@ =~= extension_of(name@));
        } else {
            assert(ext@ =~= extension_of(name@));
        }
    }
    let r: &str = if str_eq(ext, "html") || str_eq(ext, "htm") {
        "text/html"
    } else if str_eq(ext, "css") {
        "text/css"
    } else if str_eq(ext, "js") {
        "application/javascript"
    } else if str_eq(ext, "json") {
        "application/json"
    } else if str_eq(ext, "txt") {
        "text/plain"
    } else if str_eq(ext, "xml") {
        "application/xml"
    } else if str_eq(ext, "png") {
        "image/png"
    } else if str_eq(ext, "jpg") || str_eq(ext, "jpeg") {
        "image/jpeg"
    } else if str_eq(ext, "gif") {
        "image/gif"
    } else if str_eq(ext, "svg") {
        "image/svg+xml"
    } else if str_eq(ext, "ico") {
        "image/x-icon"
    } else if str_eq(ext, "pdf") {
        "application/pdf"
    } else if str_eq(ext, "wasm") {
        "application/wasm"
    } else {
        "application/octet-stream"
    };
    r.to_owned()
}

} // verus!
