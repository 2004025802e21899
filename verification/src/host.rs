//! Host address validation.
//!
//! The bind address supplied by the configuration is accepted only when it is
//! a strict dotted quad: four decimal octets in `0..=255`, without leading
//! zeros, separated by single dots.  Anything else falls back to the default
//! address `0.0.0.0`.

use vstd::prelude::*;
use crate::strings::{first_at, find_char_from, lemma_first_at_ensures, lemma_first_at_is};

verus! {

/// A decimal digit, by code point.
pub open spec fn is_digit(c: char) -> bool {
    48 <= c as int && c as int <= 57
}

/// The numeric value of a digit.
pub open spec fn digit_val(c: char) -> int {
    c as int - 48
}

/// The numeric value of a run of one to three digits.
pub open spec fn octet_val(p: Seq<char>) -> int {
    if p.len() == 1 {
        digit_val(p[0])
    } else if p.len() == 2 {
        10 * digit_val(p[0]) + digit_val(p[1])
    } else {
        100 * digit_val(p[0]) + 10 * digit_val(p[1]) + digit_val(p[2])
    }
}

/// The text of one octet: one to three digits, no leading zero, value at
/// most 255.
pub open spec fn is_octet_text(p: Seq<char>) -> bool {
    &&& 1 <= p.len() <= 3
    &&& forall|i: int| 0 <= i < p.len() ==> is_digit(#[trigger] p[i])
    &&& p.len() > 1 ==> p[0] != '0'
    &&& octet_val(p) <= 255
}

/// A decomposition of `s` into four octets separated by dots at positions
/// `d1 < d2 < d3`.
pub open spec fn quad_at(s: Seq<char>, d1: int, d2: int, d3: int) -> bool {
    &&& 0 <= d1 < d2 < d3 < s.len()
    &&& s[d1] == '.'
    &&& s[d2] == '.'
    &&& s[d3] == '.'
    &&& is_octet_text(s.subrange(0, d1))
    &&& is_octet_text(s.subrange(d1 + 1, d2))
    &&& is_octet_text(s.subrange(d2 + 1, d3))
    &&& is_octet_text(s.subrange(d3 + 1, s.len() as int))
}

/// A strict dotted-quad IPv4 address.
pub open spec fn is_dotted_quad(s: Seq<char>) -> bool {
    exists|d1: int, d2: int, d3: int| quad_at(s, d1, d2, d3)
}

/// The default bind address.
pub open spec fn default_host() -> Seq<char> {
    "0.0.0.0"@
}

/// Octets hold no dots, so the dots of a decomposition are the first dot,
/// the first dot after it, and the first dot after that, with none further:
/// a decomposition is unique.
proof fn lemma_quad_dots_pinned(s: Seq<char>, d1: int, d2: int, d3: int)
    requires
        quad_at(s, d1, d2, d3),
    ensures
        d1 == first_at(s, '.', 0),
        d2 == first_at(s, '.', d1 + 1),
        d3 == first_at(s, '.', d2 + 1),
        first_at(s, '.', d3 + 1) == s.len(),
{
    let p1 = s.subrange(0, d1);
    let p2 = s.subrange(d1 + 1, d2);
    let p3 = s.subrange(d2 + 1, d3);
    let p4 = s.subrange(d3 + 1, s.len() as int);
    assert forall|j: int| 0 <= j < d1 implies s[j] != '.' by {
        assert(p1[j] == s[j]);
        assert(is_digit(p1[j]));
    }
    lemma_first_at_is(s, '.', 0, d1);
    assert forall|j: int| d1 + 1 <= j < d2 implies s[j] != '.' by {
        assert(p2[j - (d1 + 1)] == s[j]);
        assert(is_digit(p2[j - (d1 + 1)]));
    }
    lemma_first_at_is(s, '.', d1 + 1, d2);
    assert forall|j: int| d2 + 1 <= j < d3 implies s[j] != '.' by {
        assert(p3[j - (d2 + 1)] == s[j]);
        assert(is_digit(p3[j - (d2 + 1)]));
    }
    lemma_first_at_is(s, '.', d2 + 1, d3);
    assert forall|j: int| d3 + 1 <= j < s.len() implies s[j] != '.' by {
        assert(p4[j - (d3 + 1)] == s[j]);
        assert(is_digit(p4[j - (d3 + 1)]));
    }
    lemma_first_at_is(s, '.', d3 + 1, s.len() as int);
}

/// Decides whether the characters of `s` from `lo` to `hi` form one octet.
fn is_octet_range(s: &str, lo: usize, hi: usize) -> (r: bool)
    requires
        lo <= hi <= s@.len(),
    ensures
        r == is_octet_text(s@.subrange(lo as int, hi as int)),
{
    let ghost p = s@.subrange(lo as int, hi as int);
    let n: usize = hi - lo;
    if n == 0 || n > 3 {
        return false;
    }
    let c0: u32 = s.get_char(lo) as u32;
    proof {
        assert(p[0] == s@[lo as int]);
    }
    if c0 < 48 || c0 > 57 {
        proof {
            assert(!is_digit(p[0]));
        }
        return false;
    }
    if n == 1 {
        proof {
            assert(octet_val(p) == digit_val(p[0]));
            assert(octet_val(p) <= 9);
        }
        return true;
    }
    if c0 == 48 {
        proof {
            assert(p[0] == '0');
        }
        return false;
    }
    let c1: u32 = s.get_char(lo + 1) as u32;
    proof {
        assert(p[1] == s@[lo + 1]);
    }
    if c1 < 48 || c1 > 57 {
        proof {
            assert(!is_digit(p[1]));
        }
        return false;
    }
    if n == 2 {
        proof {
            assert(octet_val(p) == 10 * digit_val(p[0]) + digit_val(p[1]));
            assert(octet_val(p) <= 99);
        }
        return true;
    }
    let c2: u32 = s.get_char(lo + 2) as u32;
    proof {
        assert(p[2] == s@[lo + 2]);
    }
    if c2 < 48 || c2 > 57 {
        proof {
            assert(!is_digit(p[2]));
        }
        return false;
    }
    let v: u32 = 100 * (c0 - 48) + 10 * (c1 - 48) + (c2 - 48);
    proof {
        assert(octet_val(p) == 100 * digit_val(p[0]) + 10 * digit_val(p[1]) + digit_val(p[2]));
        assert(v == octet_val(p));
    }
    v <= 255
}

/// Decides whether `s` is a strict dotted-quad IPv4 address.
pub fn is_valid_host(s: &str) -> (r: bool)
    ensures
        r == is_dotted_quad(s@),
{
    let len: usize = s.unicode_len();
    let d1 = find_char_from(s, 0, '.');
    if d1 == len {
        proof {
            if is_dotted_quad(s@) {
                let (e1, e2, e3) = choose|e1: int, e2: int, e3: int| quad_at(s@, e1, e2, e3);
                lemma_quad_dots_pinned(s@, e1, e2, e3);
            }
        }
        return false;
    }
    let d2 = find_char_from(s, d1 + 1, '.');
    if d2 == len {
        proof {
            if is_dotted_quad(s@) {
                let (e1, e2, e3) = choose|e1: int, e2: int, e3: int| quad_at(s@, e1, e2, e3);
                lemma_quad_dots_pinned(s@, e1, e2, e3);
            }
        }
        return false;
    }
    let d3 = find_char_from(s, d2 + 1, '.');
    if d3 == len {
        proof {
            if is_dotted_quad(s@) {
                let (e1, e2, e3) = choose|e1: int, e2: int, e3: int| quad_at(s@, e1, e2, e3);
                lemma_quad_dots_pinned(s@, e1, e2, e3);
            }
        }
        return false;
    }
    let d4 = find_char_from(s, d3 + 1, '.');
    if d4 < len {
        proof {
            lemma_first_at_ensures(s@, '.', d3 + 1);
            if is_dotted_quad(s@) {
                let (e1, e2, e3) = choose|e1: int, e2: int, e3: int| quad_at(s@, e1, e2, e3);
                lemma_quad_dots_pinned(s@, e1, e2, e3);
            }
        }
        return false;
    }
    let ok1 = is_octet_range(s, 0, d1);
    let ok2 = is_octet_range(s, d1 + 1, d2);
    let ok3 = is_octet_range(s, d2 + 1, d3);
    let ok4 = is_octet_range(s, d3 + 1, len);
    if ok1 && ok2 && ok3 && ok4 {
        proof {
            lemma_first_at_ensures(s@, '.', 0);
            lemma_first_at_ensures(s@, '.', d1 + 1);
            lemma_first_at_ensures(s@, '.', d2 + 1);
            assert(quad_at(s@, d1 as int, d2 as int, d3 as int));
        }
        true
    } else {
        proof {
            if is_dotted_quad(s@) {
                let (e1, e2, e3) = choose|e1: int, e2: int, e3: int| quad_at(s@, e1, e2, e3);
                lemma_quad_dots_pinned(s@, e1, e2, e3);
            }
        }
        false
    }
}

/// The host actually used for a requested bind address: the address itself
/// when it is a strict dotted quad, the default otherwise.
pub open spec fn effective_host(h: Seq<char>) -> Seq<char> {
    if is_dotted_quad(h) {
        h
    } else {
        default_host()
    }
}

/// Validates a requested bind address, falling back to the default on
/// anything that is not a strict dotted quad.
pub fn validate_host(h: &str) -> (r: String)
    ensures
        r@ == effective_host(h@),
{
    if is_valid_host(h) {
        h.to_owned()
    } else {
        "0.0.0.0".to_owned()
    }
}

} // verus!
