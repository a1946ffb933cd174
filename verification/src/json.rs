//! Reduction of rows to JSON-ready pairs: labels become keys (the header
//! row is keyed `user_host`), later duplicates replace earlier ones, and
//! the raw memory and swap byte counts are appended when those modules are
//! in the layout.

use vstd::prelude::*;

use crate::config::AppConfig;
use crate::rows::{MemFacts, Row, rows_view};
use crate::text::eq_str;

verus! {

/// A JSON-ready value: a string or a non-negative number.
#[derive(Debug)]
pub enum JsonVal {
    S(String),
    N(u64),
}

/// The ghost form of a JSON value.
pub enum JsonValView {
    S(Seq<char>),
    N(nat),
}

/// The view of a JSON value.
pub open spec fn jv_view(v: JsonVal) -> JsonValView {
    match v {
        JsonVal::S(s) => JsonValView::S(s@),
        JsonVal::N(n) => JsonValView::N(n as nat),
    }
}

/// One key-value pair of the JSON object.
#[derive(Debug)]
pub struct JsonPair {
    pub key: String,
    pub val: JsonVal,
}

/// The view of a pair.
pub open spec fn pair_view(p: JsonPair) -> (Seq<char>, JsonValView) {
    (p.key@, jv_view(p.val))
}

/// The views of a pair vector.
pub open spec fn pairs_view(s: Seq<JsonPair>) -> Seq<(Seq<char>, JsonValView)> {
    s.map_values(|p: JsonPair| pair_view(p))
}

/// The first index holding key `k` at or after `i`, or -1.
pub open spec fn first_key_idx(m: Seq<(Seq<char>, JsonValView)>, k: Seq<char>, i: int) -> int
    decreases m.len() - i,
{
    if i < 0 || i >= m.len() {
        -1
    } else if m[i].0 == k {
        i
    } else {
        first_key_idx(m, k, i + 1)
    }
}

/// Whether the object holds key `k`.
pub open spec fn has_key(m: Seq<(Seq<char>, JsonValView)>, k: Seq<char>) -> bool {
    exists|j: int| 0 <= j < m.len() && (#[trigger] m[j]).0 == k
}

/// The object with `k` bound to `v`: replaces the first pair with key `k`,
/// or appends one.
pub open spec fn spec_upsert(
    m: Seq<(Seq<char>, JsonValView)>,
    k: Seq<char>,
    v: JsonValView,
) -> Seq<(Seq<char>, JsonValView)> {
    let i = first_key_idx(m, k, 0);
    if i < 0 {
        m.push((k, v))
    } else {
        m.update(i, (k, v))
    }
}

/// The JSON key of a row: its label, or `user_host` for the header row.
pub open spec fn spec_json_key(label: Seq<char>) -> Seq<char> {
    if label.len() == 0 {
        "user_host"@
    } else {
        label
    }
}

/// The object after upserting every row from `i` on into `acc`.
pub open spec fn spec_json_from_rows(
    rows: Seq<(Seq<char>, Seq<char>, Seq<char>)>,
    i: int,
    acc: Seq<(Seq<char>, JsonValView)>,
) -> Seq<(Seq<char>, JsonValView)>
    decreases rows.len() - i,
{
    if i < 0 || i >= rows.len() {
        acc
    } else {
        spec_json_from_rows(
            rows,
            i + 1,
            spec_upsert(acc, spec_json_key(rows[i].1), JsonValView::S(rows[i].2)),
        )
    }
}

/// Whether the layout names a key exactly.
pub open spec fn spec_layout_has(layout: Seq<Seq<char>>, k: Seq<char>) -> bool {
    exists|i: int| 0 <= i < layout.len() && layout[i] == k
}

/// The full JSON object of a report: one pair per row (later duplicates
/// winning), plus the numeric memory and swap byte counts when those keys
/// stand in the layout and a snapshot was taken.
pub open spec fn spec_json_pairs(
    rows: Seq<(Seq<char>, Seq<char>, Seq<char>)>,
    layout: Seq<Seq<char>>,
    mem: Option<MemFacts>,
    swap: Option<MemFacts>,
) -> Seq<(Seq<char>, JsonValView)> {
    let base = spec_json_from_rows(rows, 0, Seq::empty());
    let m1 = if mem matches Some(m) && spec_layout_has(layout, "memory"@) {
        spec_upsert(
            spec_upsert(base, "memory_used_bytes"@, JsonValView::N(mem.unwrap().used as nat)),
            "memory_total_bytes"@,
            JsonValView::N(mem.unwrap().total as nat),
        )
    } else {
        base
    };
    if swap matches Some(s) && spec_layout_has(layout, "swap"@) {
        spec_upsert(
            spec_upsert(m1, "swap_used_bytes"@, JsonValView::N(swap.unwrap().used as nat)),
            "swap_total_bytes"@,
            JsonValView::N(swap.unwrap().total as nat),
        )
    } else {
        m1
    }
}

fn upsert(m: &mut Vec<JsonPair>, key: String, val: JsonVal)
    ensures
        pairs_view(final(m)@) == spec_upsert(pairs_view(old(m)@), key@, jv_view(val)),
{
    let ghost mv = pairs_view(m@);
    proof {
        assert(mv == pairs_view(old(m)@));
    }
    let n = m.len();
    let mut i: usize = 0;
    while i < n
        invariant
            i <= n,
            n == m@.len(),
            mv == pairs_view(m@),
            mv == pairs_view(old(m)@),
            mv.len() == n,
            first_key_idx(mv, key@, 0) == first_key_idx(mv, key@, i as int),
        decreases n - i,
    {
        proof {
            assert(mv[i as int] == pair_view(m@[i as int]));
        }
        if eq_str(m[i].key.as_str(), key.as_str()) {
            proof {
                assert(first_key_idx(mv, key@, i as int) == i);
            }
            proof {
                assert(first_key_idx(mv, key@, 0) == i);
            }
            let ghost kv = key@;
            let ghost vv = jv_view(val);
            m.set(i, JsonPair { key, val });
            proof {
                assert(spec_upsert(mv, kv, vv) == mv.update(i as int, (kv, vv)));
                assert(pairs_view(m@) =~= mv.update(i as int, (kv, vv)));
            }
            return ;
        }
        i += 1;
    }
    proof {
        assert(first_key_idx(mv, key@, n as int) == -1);
    }
    m.push(JsonPair { key, val });
    proof {
        assert(pairs_view(m@) =~= mv.push((key@, jv_view(val))));
    }
}

fn layout_has(layout: &Vec<String>, k: &str) -> (r: bool)
    ensures
        r == spec_layout_has(layout.deep_view(), k@),
{
    let n = layout.len();
    let mut i: usize = 0;
    while i < n
        invariant
            i <= n,
            n == layout@.len(),
            layout.deep_view().len() == n,
            forall|j: int| 0 <= j < i ==> (#[trigger] layout.deep_view()[j]) != k@,
        decreases n - i,
    {
        proof {
            assert(layout.deep_view()[i as int] == layout@[i as int]@);
        }
        if eq_str(layout[i].as_str(), k) {
            return true;
        }
        i += 1;
    }
    false
}

/// Reduces the collected rows to the JSON object of the report.
pub fn lines_to_json(
    rows: &Vec<Row>,
    config: &AppConfig,
    mem: &Option<MemFacts>,
    swap: &Option<MemFacts>,
) -> (r: Vec<JsonPair>)
    ensures
        pairs_view(r@) == spec_json_pairs(
            rows_view(rows@),
            config.layout.deep_view(),
            *mem,
            *swap,
        ),
{
    let mut out: Vec<JsonPair> = Vec::new();
    let ghost rv = rows_view(rows@);
    let n = rows.len();
    let mut i: usize = 0;
    proof {
        assert(pairs_view(out@) =~= Seq::<(Seq<char>, JsonValView)>::empty());
    }
    while i < n
        invariant
            i <= n,
            n == rows@.len(),
            rv == rows_view(rows@),
            rv.len() == n,
            spec_json_from_rows(rv, 0, Seq::empty()) == spec_json_from_rows(
                rv,
                i as int,
                pairs_view(out@),
            ),
        decreases n - i,
    {
        proof {
            assert(rv[i as int] == crate::rows::row_view(rows@[i as int]));
        }
        let key: String = if rows[i].label.as_str().is_empty() {
            String::from_str("user_host")
        } else {
            rows[i].label.clone()
        };
        proof {
            assert(key@ == spec_json_key(rv[i as int].1));
        }
        upsert(&mut out, key, JsonVal::S(rows[i].value.clone()));
        i += 1;
    }
    if layout_has(&config.layout, "memory") {
        match mem {
            Some(m) => {
                upsert(&mut out, String::from_str("memory_used_bytes"), JsonVal::N(m.used));
                upsert(&mut out, String::from_str("memory_total_bytes"), JsonVal::N(m.total));
            },
            None => {},
        }
    }
    if layout_has(&config.layout, "swap") {
        match swap {
            Some(s) => {
                upsert(&mut out, String::from_str("swap_used_bytes"), JsonVal::N(s.used));
                upsert(&mut out, String::from_str("swap_total_bytes"), JsonVal::N(s.total));
            },
            None => {},
        }
    }
    out
}

/// Upserting binds its own key and keeps every existing key; it introduces
/// no other key.
proof fn lemma_upsert_keys(m: Seq<(Seq<char>, JsonValView)>, k: Seq<char>, v: JsonValView)
    ensures
        has_key(spec_upsert(m, k, v), k),
        forall|k2: Seq<char>| has_key(m, k2) ==> #[trigger] has_key(spec_upsert(m, k, v), k2),
        forall|k2: Seq<char>|
            #[trigger] has_key(spec_upsert(m, k, v), k2) ==> has_key(m, k2) || k2 == k,
{
    let i = first_key_idx(m, k, 0);
    let u = spec_upsert(m, k, v);
    if i < 0 {
        assert(u[m.len() as int].0 == k);
        assert forall|k2: Seq<char>| has_key(m, k2) implies #[trigger] has_key(u, k2) by {
            let j = choose|j: int| 0 <= j < m.len() && (#[trigger] m[j]).0 == k2;
            assert(u[j].0 == k2);
        }
        assert forall|k2: Seq<char>| #[trigger] has_key(u, k2) implies has_key(m, k2) || k2
            == k by {
            let j = choose|j: int| 0 <= j < u.len() && (#[trigger] u[j]).0 == k2;
            if j < m.len() {
                assert(m[j].0 == k2);
            }
        }
    } else {
        lemma_first_key_idx_found(m, k, 0);
        assert(0 <= i < m.len() && m[i].0 == k);
        assert(u[i].0 == k);
        assert forall|k2: Seq<char>| has_key(m, k2) implies #[trigger] has_key(u, k2) by {
            let j = choose|j: int| 0 <= j < m.len() && (#[trigger] m[j]).0 == k2;
            if j == i {
                assert(m[j].0 == k);
                assert(u[i].0 == k2);
            } else {
                assert(u[j].0 == k2);
            }
        }
        assert forall|k2: Seq<char>| #[trigger] has_key(u, k2) implies has_key(m, k2) || k2
            == k by {
            let j = choose|j: int| 0 <= j < u.len() && (#[trigger] u[j]).0 == k2;
            if j != i {
                assert(m[j].0 == k2);
            }
        }
    }
}

proof fn lemma_first_key_idx_found(m: Seq<(Seq<char>, JsonValView)>, k: Seq<char>, i: int)
    requires
        0 <= i <= m.len(),
        first_key_idx(m, k, i) >= 0,
    ensures
        i <= first_key_idx(m, k, i) < m.len(),
        m[first_key_idx(m, k, i)].0 == k,
    decreases m.len() - i,
{
    if i < m.len() && m[i].0 != k {
        lemma_first_key_idx_found(m, k, i + 1);
    }
}

proof fn lemma_json_from_rows_keys(
    rows: Seq<(Seq<char>, Seq<char>, Seq<char>)>,
    i: int,
    acc: Seq<(Seq<char>, JsonValView)>,
)
    requires
        0 <= i <= rows.len(),
    ensures
        forall|j: int|
            i <= j < rows.len() ==> has_key(
                spec_json_from_rows(rows, i, acc),
                spec_json_key(#[trigger] rows[j].1),
            ),
        forall|k: Seq<char>|
            has_key(acc, k) ==> #[trigger] has_key(spec_json_from_rows(rows, i, acc), k),
        forall|k: Seq<char>|
            #[trigger] has_key(spec_json_from_rows(rows, i, acc), k) ==> has_key(acc, k) || (
            exists|j: int| i <= j < rows.len() && spec_json_key(#[trigger] rows[j].1) == k),
    decreases rows.len() - i,
{
    if i < rows.len() {
        let ki = spec_json_key(rows[i].1);
        let acc2 = spec_upsert(acc, ki, JsonValView::S(rows[i].2));
        lemma_upsert_keys(acc, ki, JsonValView::S(rows[i].2));
        lemma_json_from_rows_keys(rows, i + 1, acc2);
        let res = spec_json_from_rows(rows, i, acc);
        assert(res == spec_json_from_rows(rows, i + 1, acc2));
        assert(has_key(acc2, ki));
        assert(has_key(spec_json_from_rows(rows, i + 1, acc2), ki));
        assert forall|k: Seq<char>| has_key(acc, k) implies #[trigger] has_key(res, k) by {
            assert(has_key(acc2, k));
            assert(has_key(spec_json_from_rows(rows, i + 1, acc2), k));
        }
        assert forall|k: Seq<char>| #[trigger] has_key(res, k) implies has_key(acc, k) || (
        exists|j: int| i <= j < rows.len() && spec_json_key(#[trigger] rows[j].1) == k) by {
            assert(has_key(spec_json_from_rows(rows, i + 1, acc2), k));
            if has_key(acc2, k) {
                if k == ki {
                    assert(spec_json_key(rows[i].1) == k);
                }
            }
        }
    }
}

/// The JSON object law: every collected row contributes its key (the
/// header row under `user_host`); the numeric memory and swap byte pairs
/// stand in the object exactly when the matching key is in the layout and
/// a snapshot exists; and no other key occurs.
pub proof fn lemma_json_keys(
    rows: Seq<(Seq<char>, Seq<char>, Seq<char>)>,
    layout: Seq<Seq<char>>,
    mem: Option<MemFacts>,
    swap: Option<MemFacts>,
)
    ensures
        forall|j: int|
            0 <= j < rows.len() ==> has_key(
                spec_json_pairs(rows, layout, mem, swap),
                spec_json_key(#[trigger] rows[j].1),
            ),
        (mem is Some && spec_layout_has(layout, "memory"@)) ==> has_key(
            spec_json_pairs(rows, layout, mem, swap),
            "memory_used_bytes"@,
        ) && has_key(spec_json_pairs(rows, layout, mem, swap), "memory_total_bytes"@),
        (swap is Some && spec_layout_has(layout, "swap"@)) ==> has_key(
            spec_json_pairs(rows, layout, mem, swap),
            "swap_used_bytes"@,
        ) && has_key(spec_json_pairs(rows, layout, mem, swap), "swap_total_bytes"@),
        forall|k: Seq<char>|
            #[trigger] has_key(spec_json_pairs(rows, layout, mem, swap), k) ==> (exists|j: int|
                0 <= j < rows.len() && spec_json_key(#[trigger] rows[j].1) == k) || ((mem is Some
                && spec_layout_has(layout, "memory"@)) && (k == "memory_used_bytes"@ || k
                == "memory_total_bytes"@)) || ((swap is Some && spec_layout_has(layout, "swap"@))
                && (k == "swap_used_bytes"@ || k == "swap_total_bytes"@)),
{
    let base = spec_json_from_rows(rows, 0, Seq::empty());
    lemma_json_from_rows_keys(rows, 0, Seq::empty());
    let m1 = if mem matches Some(m) && spec_layout_has(layout, "memory"@) {
        spec_upsert(
            spec_upsert(base, "memory_used_bytes"@, JsonValView::N(mem.unwrap().used as nat)),
            "memory_total_bytes"@,
            JsonValView::N(mem.unwrap().total as nat),
        )
    } else {
        base
    };
    if mem matches Some(m) && spec_layout_has(layout, "memory"@) {
        let s1 = spec_upsert(base, "memory_used_bytes"@, JsonValView::N(mem.unwrap().used as nat));
        lemma_upsert_keys(base, "memory_used_bytes"@, JsonValView::N(mem.unwrap().used as nat));
        lemma_upsert_keys(s1, "memory_total_bytes"@, JsonValView::N(mem.unwrap().total as nat));
    }
    if swap matches Some(s) && spec_layout_has(layout, "swap"@) {
        let s2 = spec_upsert(m1, "swap_used_bytes"@, JsonValView::N(swap.unwrap().used as nat));
        lemma_upsert_keys(m1, "swap_used_bytes"@, JsonValView::N(swap.unwrap().used as nat));
        lemma_upsert_keys(s2, "swap_total_bytes"@, JsonValView::N(swap.unwrap().total as nat));
    }
}

} // verus!
