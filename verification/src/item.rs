//! One line of fetch output: a display label and a value, plus the
//! lexicographic ordering and verified sort used by multi-row modules.

use vstd::prelude::*;

use crate::text::{chars_of, contains_chars, eq_chars, lower_seq, to_lower_chars};

verus! {

/// One (label, value) line of fetch output. An empty label designates a
/// header line.
#[derive(Debug)]
pub struct InfoItem {
    pub label: String,
    pub value: String,
}

/// The view of an item: its label and value character sequences.
pub open spec fn item_view(it: InfoItem) -> (Seq<char>, Seq<char>) {
    (it.label@, it.value@)
}

impl InfoItem {
    /// An item with the given label and value.
    pub fn new(label: String, value: String) -> (r: Self)
        ensures
            r.label@ == label@,
            r.value@ == value@,
    {
        Self { label, value }
    }
}

/// Lexicographic order on character sequences by scalar value, with a
/// prefix ordered before its extensions.
pub open spec fn lex_le(a: Seq<char>, b: Seq<char>) -> bool
    decreases a.len(),
{
    if a.len() == 0 {
        true
    } else if b.len() == 0 {
        false
    } else if (a[0] as u32) < (b[0] as u32) {
        true
    } else if (a[0] as u32) > (b[0] as u32) {
        false
    } else {
        lex_le(a.drop_first(), b.drop_first())
    }
}

/// Any two sequences are ordered one way or the other.
pub proof fn lemma_lex_le_total(a: Seq<char>, b: Seq<char>)
    ensures
        lex_le(a, b) || lex_le(b, a),
    decreases a.len(),
{
    if a.len() > 0 && b.len() > 0 && (a[0] as u32) == (b[0] as u32) {
        lemma_lex_le_total(a.drop_first(), b.drop_first());
    }
}

/// The order is transitive.
pub proof fn lemma_lex_le_trans(a: Seq<char>, b: Seq<char>, c: Seq<char>)
    requires
        lex_le(a, b),
        lex_le(b, c),
    ensures
        lex_le(a, c),
    decreases a.len(),
{
    if a.len() > 0 && b.len() > 0 && c.len() > 0 && (a[0] as u32) == (b[0] as u32) && (b[0] as u32)
        == (c[0] as u32) {
        lemma_lex_le_trans(a.drop_first(), b.drop_first(), c.drop_first());
    }
}

/// Lexicographic comparison, executable.
pub fn lex_le_exec(a: &Vec<char>, b: &Vec<char>) -> (r: bool)
    ensures
        r == lex_le(a@, b@),
{
    let mut i: usize = 0;
    let an = a.len();
    let bn = b.len();
    proof {
        assert(a@.skip(0) =~= a@);
        assert(b@.skip(0) =~= b@);
    }
    while i < an && i < bn
        invariant
            i <= an,
            i <= bn,
            an == a@.len(),
            bn == b@.len(),
            lex_le(a@, b@) == lex_le(a@.skip(i as int), b@.skip(i as int)),
        decreases an - i,
    {
        let ca = a[i] as u32;
        let cb = b[i] as u32;
        proof {
            assert(a@.skip(i as int)[0] == a@[i as int]);
            assert(b@.skip(i as int)[0] == b@[i as int]);
            assert(a@.skip(i as int).drop_first() =~= a@.skip(i + 1));
            assert(b@.skip(i as int).drop_first() =~= b@.skip(i + 1));
        }
        if ca < cb {
            return true;
        }
        if ca > cb {
            return false;
        }
        i += 1;
    }
    proof {
        if i >= an {
            assert(a@.skip(i as int).len() == 0);
        } else {
            assert(b@.skip(i as int).len() == 0);
            assert(a@.skip(i as int).len() > 0);
        }
    }
    i >= an
}

/// The sort rank of a disk label: labels naming the root mount (or a
/// Windows system drive) come first.
pub open spec fn spec_label_rank(l: Seq<char>) -> int {
    if crate::text::seq_contains(l, "(/)"@) || lower_seq(l) == "c:"@ || crate::text::seq_contains(
        l,
        "(C:)"@,
    ) {
        0
    } else {
        1
    }
}

/// The row order: by rank, then by label lexicographically.
pub open spec fn spec_item_le(a: (Seq<char>, Seq<char>), b: (Seq<char>, Seq<char>)) -> bool {
    spec_label_rank(a.0) < spec_label_rank(b.0) || (spec_label_rank(a.0) == spec_label_rank(b.0)
        && lex_le(a.0, b.0))
}

/// The row order is total.
pub proof fn lemma_item_le_total(a: (Seq<char>, Seq<char>), b: (Seq<char>, Seq<char>))
    ensures
        spec_item_le(a, b) || spec_item_le(b, a),
{
    lemma_lex_le_total(a.0, b.0);
}

/// The row order is transitive.
pub proof fn lemma_item_le_trans(
    a: (Seq<char>, Seq<char>),
    b: (Seq<char>, Seq<char>),
    c: (Seq<char>, Seq<char>),
)
    requires
        spec_item_le(a, b),
        spec_item_le(b, c),
    ensures
        spec_item_le(a, c),
{
    if spec_label_rank(a.0) == spec_label_rank(b.0) && spec_label_rank(b.0) == spec_label_rank(
        c.0,
    ) {
        lemma_lex_le_trans(a.0, b.0, c.0);
    }
}

fn label_rank(l: &String) -> (r: u8)
    ensures
        r as int == spec_label_rank(l@),
{
    let cs = chars_of(l.as_str());
    let lower = to_lower_chars(&cs);
    if contains_chars(&cs, &chars_of("(/)")) || eq_chars(&lower, &chars_of("c:")) || contains_chars(
        &cs,
        &chars_of("(C:)"),
    ) {
        0
    } else {
        1
    }
}

fn item_le_exec(a: &InfoItem, b: &InfoItem) -> (r: bool)
    ensures
        r == spec_item_le(item_view(*a), item_view(*b)),
{
    let ra = label_rank(&a.label);
    let rb = label_rank(&b.label);
    if ra < rb {
        true
    } else if ra > rb {
        false
    } else {
        let ca = chars_of(a.label.as_str());
        let cb = chars_of(b.label.as_str());
        lex_le_exec(&ca, &cb)
    }
}

/// The views of a row vector.
pub open spec fn items_view(v: Seq<InfoItem>) -> Seq<(Seq<char>, Seq<char>)> {
    v.map_values(|it: InfoItem| item_view(it))
}

/// Whether a row sequence is ordered by rank and label.
pub open spec fn items_sorted(s: Seq<(Seq<char>, Seq<char>)>) -> bool {
    forall|i: int, j: int| 0 <= i < j < s.len() ==> #[trigger] spec_item_le(s[i], s[j])
}

/// Sorts rows by rank and label: the result is ordered and holds exactly
/// the input rows.
pub fn sort_items(v: Vec<InfoItem>) -> (r: Vec<InfoItem>)
    ensures
        items_view(r@).to_multiset() == items_view(v@).to_multiset(),
        items_sorted(items_view(r@)),
        r@.len() == v@.len(),
{
    broadcast use vstd::seq_lib::group_to_multiset_ensures;

    let mut out: Vec<InfoItem> = Vec::new();
    let src = v;
    let ghost orig = items_view(src@);
    proof {
        assert(items_view(out@) =~= Seq::<(Seq<char>, Seq<char>)>::empty());
        assert(orig.subrange(0, 0) =~= Seq::<(Seq<char>, Seq<char>)>::empty());
    }
    let mut i: usize = 0;
    while i < src.len()
        invariant
            i <= src@.len(),
            orig == items_view(src@),
            orig.len() == src@.len(),
            items_view(out@).to_multiset() == orig.subrange(0, i as int).to_multiset(),
            items_sorted(items_view(out@)),
            out@.len() == i,
        decreases src.len() - i,
    {
        broadcast use vstd::seq_lib::group_to_multiset_ensures;

        let ghost out_v = items_view(out@);
        let x = clone_item(&src[i]);
        let ghost xv = item_view(x);
        proof {
            assert(orig[i as int] == item_view(src@[i as int]));
            assert(xv == orig[i as int]);
        }
        let mut k: usize = 0;
        while k < out.len() && item_le_exec(&out[k], &x)
            invariant
                k <= out@.len(),
                out_v == items_view(out@),
                out_v.len() == out@.len(),
                xv == item_view(x),
                forall|j: int| 0 <= j < k ==> #[trigger] spec_item_le(out_v[j], xv),
            decreases out.len() - k,
        {
            proof {
                assert(out_v[k as int] == item_view(out@[k as int]));
            }
            k += 1;
        }
        proof {
            if k < out_v.len() {
                assert(out_v[k as int] == item_view(out@[k as int]));
                assert(!spec_item_le(out_v[k as int], xv));
                lemma_item_le_total(out_v[k as int], xv);
                assert(spec_item_le(xv, out_v[k as int]));
            }
        }
        out.insert(k, x);
        proof {
            assert(items_view(out@) =~= out_v.insert(k as int, xv));
            assert(out_v.insert(k as int, xv).to_multiset() == out_v.to_multiset().insert(xv));
            assert(orig.subrange(0, i + 1) =~= orig.subrange(0, i as int).push(orig[i as int]));
            assert(items_view(out@).to_multiset() == orig.subrange(0, i + 1).to_multiset());
            let nv = out_v.insert(k as int, xv);
            assert forall|p: int, q: int| 0 <= p < q < nv.len() implies #[trigger] spec_item_le(
                nv[p],
                nv[q],
            ) by {
                if q < k {
                    assert(spec_item_le(out_v[p], out_v[q]));
                } else if q == k {
                    assert(nv[q] == xv);
                    assert(spec_item_le(out_v[p], xv));
                } else {
                    if p < k {
                        assert(nv[p] == out_v[p]);
                        assert(spec_item_le(out_v[p], out_v[q - 1]));
                    } else if p == k {
                        assert(nv[p] == xv);
                        assert(k < out_v.len());
                        assert(spec_item_le(xv, out_v[k as int]));
                        if q - 1 > k {
                            assert(spec_item_le(out_v[k as int], out_v[q - 1]));
                            lemma_item_le_trans(xv, out_v[k as int], out_v[q - 1]);
                        }
                        assert(spec_item_le(xv, out_v[q - 1]));
                    } else {
                        assert(spec_item_le(out_v[p - 1], out_v[q - 1]));
                    }
                }
            }
            assert(items_sorted(items_view(out@)));
        }
        i += 1;
    }
    proof {
        assert(orig.subrange(0, orig.len() as int) =~= orig);
    }
    out
}

/// A field-exact copy of a row.
pub fn clone_item(it: &InfoItem) -> (r: InfoItem)
    ensures
        item_view(r) == item_view(*it),
{
    InfoItem { label: it.label.clone(), value: it.value.clone() }
}

} // verus!
