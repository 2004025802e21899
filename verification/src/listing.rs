//! The directory listing responder.
//!
//! Given the entries of a directory, names and whether each is a
//! subdirectory, the responder renders an HTML page with one link per
//! entry.  Entries are sorted by name first, so that the same set of
//! entries always renders as the same page, in whatever order the
//! filesystem enumerated them.  A subdirectory's link target carries a
//! trailing slash, so that following it is again a request-relative path.

use vstd::prelude::*;
use vstd::relations::{sorted_by, total_ordering};
use vstd::seq_lib::lemma_sorted_unique;
use vstd::seq_lib::lemma_multiset_commutative;
use vstd::multiset::Multiset;
use crate::strings::{
    lex_le, str_eq, str_le, lemma_lex_le_connected, lemma_lex_le_antisymmetric,
    lemma_lex_le_transitive,
};
use crate::response::{Body, BodyV, HttpResponse, RespV};

verus! {

/// One entry of a directory: its name and whether it is a subdirectory.
pub struct DirEntry {
    pub name: String,
    pub is_dir: bool,
}

/// The mathematical value of an entry.
#[verifier::ext_equal]
pub struct EntryV {
    pub name: Seq<char>,
    pub is_dir: bool,
}

impl View for DirEntry {
    type V = EntryV;

    open spec fn view(&self) -> EntryV {
        EntryV { name: self.name@, is_dir: self.is_dir }
    }
}

impl DeepView for DirEntry {
    type V = EntryV;

    open spec fn deep_view(&self) -> EntryV {
        self@
    }
}

/// The listing order: by name, a file before a subdirectory of the same
/// name.
pub open spec fn entry_le(a: EntryV, b: EntryV) -> bool {
    if a.name == b.name {
        a.is_dir ==> b.is_dir
    } else {
        lex_le(a.name, b.name)
    }
}

/// The listing order as a relation value.
pub open spec fn entry_order() -> spec_fn(EntryV, EntryV) -> bool {
    |a: EntryV, b: EntryV| entry_le(a, b)
}

/// The listing order is a total order.
pub proof fn lemma_entry_order_total()
    ensures
        total_ordering(entry_order()),
{
    let leq = entry_order();
    assert forall|a: EntryV, b: EntryV| #[trigger] leq(a, b) || #[trigger] leq(b, a) by {
        lemma_lex_le_connected(a.name, b.name);
    }
    assert forall|a: EntryV, b: EntryV| #[trigger] leq(a, b) && #[trigger] leq(b, a) implies a
        == b by {
        if a.name == b.name {
            assert(a =~= b);
        } else {
            lemma_lex_le_antisymmetric(a.name, b.name);
        }
    }
    assert forall|a: EntryV, b: EntryV, c: EntryV| #[trigger] leq(a, b) && #[trigger] leq(
        b,
        c,
    ) implies leq(a, c) by {
        if a.name != b.name && b.name != c.name {
            lemma_lex_le_transitive(a.name, b.name, c.name);
            if a.name == c.name {
                lemma_lex_le_antisymmetric(a.name, b.name);
            }
        }
    }
}

/// Decides the listing order on two entries.
fn entry_le_exec(a: &DirEntry, b: &DirEntry) -> (r: bool)
    ensures
        r == entry_le(a@, b@),
{
    if str_eq(a.name.as_str(), b.name.as_str()) {
        !a.is_dir || b.is_dir
    } else {
        str_le(a.name.as_str(), b.name.as_str())
    }
}

/// Inserting into a sequence inserts into its multiset.
proof fn lemma_insert_to_multiset(s: Seq<EntryV>, k: int, x: EntryV)
    requires
        0 <= k <= s.len(),
    ensures
        s.insert(k, x).to_multiset() == s.to_multiset().insert(x),
{
    broadcast use vstd::multiset::group_multiset_axioms;
    broadcast use vstd::seq_lib::group_to_multiset_ensures;

    let t = s.insert(k, x);
    s.insert_ensures(k, x);
    assert(t[k] == x);
    assert(t.contains(x));
    assert(t.remove(k) =~= s);
    assert(s.to_multiset() =~= t.to_multiset().remove(x));
    assert(t.to_multiset().count(x) > 0);
    assert forall|y: EntryV| t.to_multiset().count(y) == s.to_multiset().insert(x).count(
        y,
    ) by {
        if y == x {
            assert(s.to_multiset().count(x) == t.to_multiset().count(x) - 1);
        } else {
            assert(s.to_multiset().count(y) == t.to_multiset().count(y));
        }
    }
    assert(t.to_multiset() =~= s.to_multiset().insert(x));
}

/// Putting an element in front of a sequence inserts it into the multiset.
proof fn lemma_cons_to_multiset(t: Seq<EntryV>, x: EntryV)
    ensures
        (seq![x] + t).to_multiset() == t.to_multiset().insert(x),
{
    broadcast use vstd::multiset::group_multiset_axioms;
    broadcast use vstd::seq_lib::group_to_multiset_ensures;

    lemma_multiset_commutative(seq![x], t);
    assert(seq![x].drop_first() =~= Seq::<EntryV>::empty());
    assert(seq![x].to_multiset() =~= Multiset::<EntryV>::empty().insert(x));
    assert forall|y: EntryV| (seq![x] + t).to_multiset().count(y) == t.to_multiset().insert(
        x,
    ).count(y) by {
    }
    assert((seq![x] + t).to_multiset() =~= t.to_multiset().insert(x));
}

/// The position at which an entry joins a sorted vector: the first index
/// whose entry is not below it.
fn lower_position(out: &Vec<DirEntry>, e: &DirEntry) -> (k: usize)
    ensures
        k <= out.len(),
        forall|j: int| 0 <= j < k ==> !entry_le(e@, out.deep_view()[j]),
        k < out.len() ==> entry_le(e@, out.deep_view()[k as int]),
{
    let n = out.len();
    let mut k: usize = 0;
    loop
        invariant
            k <= n,
            n == out.len(),
            forall|j: int| 0 <= j < k ==> !entry_le(e@, out.deep_view()[j]),
        decreases n - k,
    {
        if k == n {
            return k;
        }
        if entry_le_exec(e, &out[k]) {
            return k;
        }
        k = k + 1;
    }
}

/// Inserts an entry into a sorted vector, keeping it sorted and adding the
/// entry to its contents.
fn insert_sorted(out: &mut Vec<DirEntry>, e: DirEntry)
    requires
        sorted_by(old(out).deep_view(), entry_order()),
    ensures
        sorted_by(final(out).deep_view(), entry_order()),
        final(out).deep_view().to_multiset() == old(out).deep_view().to_multiset().insert(e@),
{
    proof {
        lemma_entry_order_total();
    }
    let ghost pre = out.deep_view();
    let ghost leq = entry_order();
    let ghost ev = e@;
    let k = lower_position(out, &e);
    let ghost ki = k as int;
    out.insert(k, e);
    proof {
        pre.insert_ensures(ki, ev);
        let s = pre.insert(ki, ev);
        assert(out.deep_view() =~= s);
        lemma_insert_to_multiset(pre, ki, ev);
        assert forall|i: int, j: int| 0 <= i < j < s.len() implies #[trigger] leq(
            s[i],
            s[j],
        ) by {
            if j < ki {
                assert(s[i] == pre[i] && s[j] == pre[j]);
            } else if i < ki && j == ki {
                assert(s[i] == pre[i] && s[j] == ev);
                assert(!entry_le(ev, pre[i]));
                assert(leq(pre[i], ev) || leq(ev, pre[i]));
            } else if i < ki && j > ki {
                assert(s[i] == pre[i] && s[j] == pre[j - 1]);
                if j - 1 == ki {
                    assert(ki < pre.len());
                    assert(leq(ev, pre[ki]));
                    assert(!entry_le(ev, pre[i]));
                    assert(leq(pre[i], ev) || leq(ev, pre[i]));
                    assert(leq(pre[i], ev));
                    assert(leq(pre[i], pre[j - 1]) || (i == j - 1));
                } else {
                    assert(leq(pre[i], pre[j - 1]));
                }
            } else if i == ki {
                assert(s[i] == ev && s[j] == pre[j - 1]);
                assert(ki < pre.len());
                assert(leq(ev, pre[ki]));
                if j - 1 > ki {
                    assert(leq(pre[ki], pre[j - 1]));
                }
            } else {
                assert(s[i] == pre[i - 1] && s[j] == pre[j - 1]);
            }
        }
    }
}

/// Sorts directory entries into the listing order.  The result is exactly
/// the sorted arrangement of the input entries.
pub fn sort_entries(entries: Vec<DirEntry>) -> (r: Vec<DirEntry>)
    ensures
        r.deep_view() == entries.deep_view().sort_by(entry_order()),
{
    broadcast use vstd::seq_lib::group_to_multiset_ensures;

    let ghost orig = entries.deep_view();
    let ghost leq = entry_order();
    proof {
        lemma_entry_order_total();
    }
    let mut rest = entries;
    let mut out: Vec<DirEntry> = Vec::new();
    proof {
        assert(rest.deep_view() =~= orig.take(rest.len() as int));
        assert(orig.skip(rest.len() as int) =~= Seq::<EntryV>::empty());
        assert(out.deep_view() =~= Seq::<EntryV>::empty());
        assert(Seq::<EntryV>::empty().to_multiset() =~= Multiset::<EntryV>::empty());
    }
    while rest.len() > 0
        invariant
            rest.len() <= orig.len(),
            rest.deep_view() == orig.take(rest.len() as int),
            sorted_by(out.deep_view(), leq),
            leq == entry_order(),
            out.deep_view().to_multiset() == orig.skip(rest.len() as int).to_multiset(),
        decreases rest.len(),
    {
        let ghost n = rest.len() as int;
        let e = rest.pop().unwrap();
        proof {
            assert(e@ == orig.take(n)[n - 1]);
            assert(e@ == orig[n - 1]);
            assert(rest.deep_view() =~= orig.take(n - 1));
            assert(orig.skip(n - 1) =~= seq![orig[n - 1]] + orig.skip(n));
            lemma_cons_to_multiset(orig.skip(n), orig[n - 1]);
        }
        insert_sorted(&mut out, e);
    }
    proof {
        assert(orig.skip(0) =~= orig);
        orig.lemma_sort_by_ensures(leq);
        lemma_sorted_unique(out.deep_view(), orig.sort_by(leq), leq);
        assert(out.deep_view() =~= orig.sort_by(leq));
    }
    out
}

/// The link target of an entry: the name, with a trailing slash for a
/// subdirectory.
pub open spec fn href_of(e: EntryV) -> Seq<char> {
    if e.is_dir {
        e.name + "/"@
    } else {
        e.name
    }
}

/// The line rendered for one entry.
pub open spec fn entry_line(e: EntryV) -> Seq<char> {
    "<li><a href=\""@ + href_of(e) + "\">"@ + href_of(e) + "</a></li>"@
}

/// The lines rendered for a sequence of entries, in order.
pub open spec fn entry_lines(es: Seq<EntryV>) -> Seq<char>
    decreases es.len(),
{
    if es.len() == 0 {
        Seq::empty()
    } else {
        entry_line(es[0]) + entry_lines(es.drop_first())
    }
}

/// The whole listing page for a sequence of entries, in order.
pub open spec fn listing_page(es: Seq<EntryV>) -> Seq<char> {
    "<html><body><ul>"@ + entry_lines(es) + "</ul></body></html>"@
}

/// Rendering one more entry appends its line.
proof fn lemma_entry_lines_push(es: Seq<EntryV>, e: EntryV)
    ensures
        entry_lines(es.push(e)) == entry_lines(es) + entry_line(e),
    decreases es.len(),
{
    if es.len() == 0 {
        assert(es.push(e)[0] == e);
        assert(es.push(e).drop_first() =~= Seq::<EntryV>::empty());
        assert(entry_lines(Seq::<EntryV>::empty()) =~= Seq::<char>::empty());
        assert(es =~= Seq::<EntryV>::empty());
        assert(entry_lines(es.push(e)) =~= entry_line(e) + Seq::<char>::empty());
        assert(entry_lines(es.push(e)) =~= entry_lines(es) + entry_line(e));
    } else {
        lemma_entry_lines_push(es.drop_first(), e);
        assert(es.push(e)[0] == es[0]);
        assert(es.push(e).drop_first() =~= es.drop_first().push(e));
        assert(entry_line(es[0]) + (entry_lines(es.drop_first()) + entry_line(e)) =~= (entry_line(
            es[0],
        ) + entry_lines(es.drop_first())) + entry_line(e));
    }
}

/// The response owed for a directory's entries: 200, HTML, the page of the
/// entries in listing order.
pub open spec fn listing_response(entries: Seq<EntryV>) -> RespV {
    RespV {
        status: 200,
        content_type: "text/html"@,
        body: BodyV::Text(listing_page(entries.sort_by(entry_order()))),
    }
}

/// Renders the listing page for a directory's entries.
pub fn render_listing(entries: Vec<DirEntry>) -> (r: HttpResponse)
    ensures
        r@ == listing_response(entries.deep_view()),
{
    let ghost orig = entries.deep_view();
    let sorted = sort_entries(entries);
    let ghost sv = sorted.deep_view();
    let mut page = String::new();
    page.append("<html><body><ul>");
    proof {
        assert(sv.take(0) =~= Seq::<EntryV>::empty());
        assert(page@ =~= "<html><body><ul>"@ + entry_lines(sv.take(0)));
    }
    let n = sorted.len();
    let mut i: usize = 0;
    while i < n
        invariant
            i <= n,
            n == sorted.len(),
            sv == sorted.deep_view(),
            page@ == "<html><body><ul>"@ + entry_lines(sv.take(i as int)),
        decreases n - i,
    {
        let e = &sorted[i];
        page.append("<li><a href=\"");
        page.append(e.name.as_str());
        if e.is_dir {
            page.append("/");
        }
        page.append("\">");
        page.append(e.name.as_str());
        if e.is_dir {
            page.append("/");
        }
        page.append("</a></li>");
        proof {
            assert(sv.take(i + 1) =~= sv.take(i as int).push(sv[i as int]));
            lemma_entry_lines_push(sv.take(i as int), sv[i as int]);
            assert(page@ =~= "<html><body><ul>"@ + entry_lines(sv.take(i + 1)));
        }
        i = i + 1;
    }
    page.append("</ul></body></html>");
    proof {
        assert(sv.take(n as int) =~= sv);
        assert(page@ =~= listing_page(sv));
    }
    HttpResponse { status: 200, content_type: "text/html".to_owned(), body: Body::Text(page) }
}

/// Two enumerations of the same directory entries, in whatever order the
/// filesystem handed them out, render as the same listing page.
pub proof fn lemma_listing_deterministic(a: Seq<EntryV>, b: Seq<EntryV>)
    requires
        a.to_multiset() == b.to_multiset(),
    ensures
        listing_response(a) == listing_response(b),
{
    let leq = entry_order();
    lemma_entry_order_total();
    a.lemma_sort_by_ensures(leq);
    b.lemma_sort_by_ensures(leq);
    lemma_sorted_unique(a.sort_by(leq), b.sort_by(leq), leq);
    assert(a.sort_by(leq) =~= b.sort_by(leq));
}

} // verus!
