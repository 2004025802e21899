//! Character-sequence primitives: lexicographic order, equality, and
//! scanning for a character, each with an exact contract over string views.

use vstd::prelude::*;

verus! {

broadcast use vstd::utf8::char_is_scalar;

/// Lexicographic order on character sequences, comparing code points.
pub open spec fn lex_le(a: Seq<char>, b: Seq<char>) -> bool
    decreases a.len(),
{
    if a.len() == 0 {
        true
    } else if b.len() == 0 {
        false
    } else if (a[0] as u32) < (b[0] as u32) {
        true
    } else if (b[0] as u32) < (a[0] as u32) {
        false
    } else {
        lex_le(a.drop_first(), b.drop_first())
    }
}

/// Two characters with the same code point are the same character.
pub proof fn lemma_char_code_injective(c1: char, c2: char)
    requires
        c1 as u32 == c2 as u32,
    ensures
        c1 == c2,
{
}

/// `lex_le` relates any two sequences one way or the other.
pub proof fn lemma_lex_le_connected(a: Seq<char>, b: Seq<char>)
    ensures
        lex_le(a, b) || lex_le(b, a),
    decreases a.len(),
{
    if a.len() == 0 {
        assert(lex_le(a, b));
    } else if b.len() == 0 {
        assert(lex_le(b, a));
    } else if (a[0] as u32) < (b[0] as u32) {
        assert(lex_le(a, b));
    } else if (b[0] as u32) < (a[0] as u32) {
        assert(lex_le(b, a));
    } else {
        lemma_lex_le_connected(a.drop_first(), b.drop_first());
        assert(lex_le(a, b) == lex_le(a.drop_first(), b.drop_first()));
        assert(lex_le(b, a) == lex_le(b.drop_first(), a.drop_first()));
    }
}

/// `lex_le` in both directions forces equality.
pub proof fn lemma_lex_le_antisymmetric(a: Seq<char>, b: Seq<char>)
    requires
        lex_le(a, b),
        lex_le(b, a),
    ensures
        a == b,
    decreases a.len(),
{
    if a.len() == 0 {
        assert(b.len() == 0);
        assert(a =~= b);
    } else {
        assert(b.len() > 0);
        assert(!((a[0] as u32) < (b[0] as u32)));
        assert(!((b[0] as u32) < (a[0] as u32)));
        lemma_char_code_injective(a[0], b[0]);
        assert(a[0] == b[0]);
        assert(lex_le(a.drop_first(), b.drop_first()));
        assert(lex_le(b.drop_first(), a.drop_first()));
        lemma_lex_le_antisymmetric(a.drop_first(), b.drop_first());
        assert(a =~= seq![a[0]] + a.drop_first());
        assert(b =~= seq![b[0]] + b.drop_first());
    }
}

/// `lex_le` is transitive.
pub proof fn lemma_lex_le_transitive(a: Seq<char>, b: Seq<char>, c: Seq<char>)
    requires
        lex_le(a, b),
        lex_le(b, c),
    ensures
        lex_le(a, c),
    decreases a.len(),
{
    if a.len() == 0 {
        assert(lex_le(a, c));
    } else {
        assert(b.len() > 0);
        assert(c.len() > 0);
        let x: u32 = a[0] as u32;
        let y: u32 = b[0] as u32;
        let z: u32 = c[0] as u32;
        assert(x <= y);
        assert(y <= z);
        if x < z {
            assert(lex_le(a, c));
        } else {
            assert(x == y && y == z);
            lemma_char_code_injective(a[0], b[0]);
            lemma_char_code_injective(b[0], c[0]);
            assert(a[0] == b[0] && b[0] == c[0]);
            assert(lex_le(a.drop_first(), b.drop_first()));
            assert(lex_le(b.drop_first(), c.drop_first()));
            lemma_lex_le_transitive(a.drop_first(), b.drop_first(), c.drop_first());
            assert(lex_le(a, c) == lex_le(a.drop_first(), c.drop_first()));
        }
    }
}

/// Decides `lex_le` on two string slices.
pub fn str_le(a: &str, b: &str) -> (r: bool)
    ensures
        r == lex_le(a@, b@),
{
    let alen: usize = a.unicode_len();
    let blen: usize = b.unicode_len();
    let mut i: usize = 0;
    proof {
        assert(a@.skip(0) =~= a@);
        assert(b@.skip(0) =~= b@);
    }
    loop
        invariant
            i <= alen,
            i <= blen,
            alen == a@.len(),
            blen == b@.len(),
            lex_le(a@, b@) == lex_le(a@.skip(i as int), b@.skip(i as int)),
        decreases alen - i,
    {
        if i == alen {
            return true;
        }
        if i == blen {
            return false;
        }
        let ca = a.get_char(i);
        let cb = b.get_char(i);
        if (ca as u32) < (cb as u32) {
            return true;
        }
        if (cb as u32) < (ca as u32) {
            return false;
        }
        proof {
            assert(a@.skip(i as int).drop_first() =~= a@.skip(i + 1));
            assert(b@.skip(i as int).drop_first() =~= b@.skip(i + 1));
        }
        i = i + 1;
    }
}

/// Decides equality of the views of two string slices.
pub fn str_eq(a: &str, b: &str) -> (r: bool)
    ensures
        r == (a@ == b@),
{
    let alen: usize = a.unicode_len();
    let blen: usize = b.unicode_len();
    if alen != blen {
        return false;
    }
    let mut i: usize = 0;
    while i < alen
        invariant
            i <= alen,
            alen == a@.len(),
            alen == b@.len(),
            forall|j: int| 0 <= j < i ==> a@[j] == b@[j],
        decreases alen - i,
    {
        if a.get_char(i) != b.get_char(i) {
            return false;
        }
        i = i + 1;
    }
    proof {
        assert(a@ =~= b@);
    }
    true
}

/// The first position at or after `from` where `c` occurs in `s`,
/// or `s.len()` when there is none.
pub open spec fn first_at(s: Seq<char>, c: char, from: int) -> int
    decreases s.len() - from,
{
    if from < 0 || from >= s.len() {
        s.len() as int
    } else if s[from] == c {
        from
    } else {
        first_at(s, c, from + 1)
    }
}

/// What `first_at` returns: a position in range, holding `c` when it is not
/// the length, with no occurrence of `c` before it.
pub proof fn lemma_first_at_ensures(s: Seq<char>, c: char, from: int)
    requires
        0 <= from <= s.len(),
    ensures
        from <= first_at(s, c, from) <= s.len(),
        first_at(s, c, from) < s.len() ==> s[first_at(s, c, from)] == c,
        forall|j: int| from <= j < first_at(s, c, from) ==> s[j] != c,
    decreases s.len() - from,
{
    if from < s.len() && s[from] != c {
        lemma_first_at_ensures(s, c, from + 1);
    }
}

/// A position with `c`, or the length with no occurrence of `c` from `from`
/// on, pins down `first_at`.
pub proof fn lemma_first_at_is(s: Seq<char>, c: char, from: int, pos: int)
    requires
        0 <= from <= pos <= s.len(),
        pos < s.len() ==> s[pos] == c,
        forall|j: int| from <= j < pos ==> s[j] != c,
    ensures
        first_at(s, c, from) == pos,
{
    lemma_first_at_ensures(s, c, from);
    let r = first_at(s, c, from);
    if r < pos {
        assert(s[r] == c);
        assert(false);
    }
    if r > pos {
        assert(s[pos] != c);
        assert(false);
    }
}

/// Finds the first occurrence of `c` in `s` at or after `from`.
pub fn find_char_from(s: &str, from: usize, c: char) -> (r: usize)
    requires
        from <= s@.len(),
    ensures
        r == first_at(s@, c, from as int),
        from <= r <= s@.len(),
{
    let len: usize = s.unicode_len();
    let mut i: usize = from;
    loop
        invariant
            from <= i <= len,
            len == s@.len(),
            first_at(s@, c, from as int) == first_at(s@, c, i as int),
        decreases len - i,
    {
        if i == len {
            return i;
        }
        if s.get_char(i) == c {
            return i;
        }
        i = i + 1;
    }
}

} // verus!
