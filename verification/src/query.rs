//! Decoded query pairs and the tracking-parameter denylist.
//!
//! A key is a tracking key when, lowercased (ASCII only), it either starts
//! with `utm_` or equals one of a fixed denylist of analytics keys. Values
//! are never inspected.

use crate::text;
use vstd::prelude::*;
use vstd::seq_lib::group_seq_properties;
use vstd::string::{StrSliceExecFns, StringExecFns};

verus! {

/// A decoded query pair, as mathematical character sequences.
pub type SpecPair = (Seq<char>, Seq<char>);

/// The view of a vector of decoded pairs.
pub open spec fn pairs_view(s: Seq<(String, String)>) -> Seq<SpecPair> {
    s.map_values(|p: (String, String)| (p.0@, p.1@))
}

/// ASCII lowercasing of one character; anything outside `A`..`Z` is kept.
pub open spec fn lower_char(c: char) -> char {
    if 65 <= c as u32 && c as u32 <= 90 {
        ((c as u32 + 32) as u8) as char
    } else {
        c
    }
}

/// ASCII lowercasing of a whole key.
pub open spec fn lower_seq(s: Seq<char>) -> Seq<char> {
    s.map_values(|c: char| lower_char(c))
}

/// The fixed denylist, as data rather than inlined comparisons, so that a
/// membership test can also be probed against other lists.
pub open spec fn spec_denylist() -> Seq<Seq<char>> {
    seq![
        "fbclid"@,
        "gclid"@,
        "mc_cid"@,
        "mc_eid"@,
        "ref"@,
        "trk"@,
        "aff"@,
        "igshid"@,
        "scid"@,
    ]
}

/// Membership of a lowercased key in a list of (lowercase) keys.
pub open spec fn in_list(low: Seq<char>, list: Seq<Seq<char>>) -> bool {
    exists|i: int| 0 <= i < list.len() && list[i] == low
}

/// The fixed denylist, matched against the lowercased key.
pub open spec fn is_denylisted(low: Seq<char>) -> bool {
    in_list(low, spec_denylist())
}

/// The view of a vector of keys.
pub open spec fn keys_view(list: Seq<String>) -> Seq<Seq<char>> {
    list.map_values(|s: String| s@)
}

/// Builds the fixed denylist.
pub fn denylist() -> (r: Vec<String>)
    ensures
        keys_view(r@) == spec_denylist(),
{
    let mut r: Vec<String> = Vec::new();
    r.push(String::from_str("fbclid"));
    r.push(String::from_str("gclid"));
    r.push(String::from_str("mc_cid"));
    r.push(String::from_str("mc_eid"));
    r.push(String::from_str("ref"));
    r.push(String::from_str("trk"));
    r.push(String::from_str("aff"));
    r.push(String::from_str("igshid"));
    r.push(String::from_str("scid"));
    proof {
        assert(keys_view(r@) =~= spec_denylist());
    }
    r
}

/// A tracking key: lowercased, it starts with `utm_` or is denylisted.
pub open spec fn is_tracking_key(k: Seq<char>) -> bool {
    ||| text::has_prefix(lower_seq(k), "utm_"@)
    ||| is_denylisted(lower_seq(k))
}

/// Executable ASCII lowercasing of one character.
fn lower_char_exec(c: char) -> (r: char)
    ensures
        r == lower_char(c),
{
    let u = c as u32;
    if 65 <= u && u <= 90 {
        ((u + 32) as u8) as char
    } else {
        c
    }
}

/// Whether `k`, lowercased, equals the (already lowercase) `lit`.
fn lowered_eq(k: &str, lit: &str) -> (b: bool)
    ensures
        b == (lower_seq(k@) == lit@),
{
    let n = k.unicode_len();
    if n != lit.unicode_len() {
        assert(lower_seq(k@).len() == k@.len());
        return false;
    }
    let mut i: usize = 0;
    while i < n
        invariant
            n == k@.len(),
            n == lit@.len(),
            i <= n,
            forall|j: int| 0 <= j < i ==> lower_char(k@[j]) == lit@[j],
        decreases n - i,
    {
        if lower_char_exec(k.get_char(i)) != lit.get_char(i) {
            assert(lower_seq(k@)[i as int] != lit@[i as int]);
            return false;
        }
        i += 1;
    }
    assert(lower_seq(k@) =~= lit@);
    true
}

/// Whether `k`, lowercased, starts with the (already lowercase) `p`.
fn lowered_has_prefix(k: &str, p: &str) -> (b: bool)
    ensures
        b == text::has_prefix(lower_seq(k@), p@),
{
    let n = p.unicode_len();
    if k.unicode_len() < n {
        assert(lower_seq(k@).len() == k@.len());
        return false;
    }
    let mut i: usize = 0;
    while i < n
        invariant
            n == p@.len(),
            n <= k@.len(),
            i <= n,
            forall|j: int| 0 <= j < i ==> lower_char(k@[j]) == p@[j],
        decreases n - i,
    {
        if lower_char_exec(k.get_char(i)) != p.get_char(i) {
            assert(lower_seq(k@)[i as int] != p@[i as int]);
            assert(!p@.is_prefix_of(lower_seq(k@)));
            return false;
        }
        i += 1;
    }
    assert(p@.is_prefix_of(lower_seq(k@))) by {
        assert(p@ =~= lower_seq(k@).subrange(0, p@.len() as int));
    }
    true
}

/// Whether `k`, lowercased, appears in `list` (whose entries are lowercase).
pub fn key_in_list(k: &str, list: &Vec<String>) -> (b: bool)
    ensures
        b == in_list(lower_seq(k@), keys_view(list@)),
{
    let mut i: usize = 0;
    while i < list.len()
        invariant
            i <= list@.len(),
            forall|j: int| 0 <= j < i ==> keys_view(list@)[j] != lower_seq(k@),
        decreases list@.len() - i,
    {
        if lowered_eq(k, list[i].as_str()) {
            assert(keys_view(list@)[i as int] == lower_seq(k@));
            return true;
        }
        i += 1;
    }
    false
}

/// Executable tracking-key test against the fixed denylist.
pub fn key_is_tracking(k: &str) -> (b: bool)
    ensures
        b == is_tracking_key(k@),
{
    if lowered_has_prefix(k, "utm_") {
        return true;
    }
    let list = denylist();
    key_in_list(k, &list)
}

/// The pairs that survive sanitization: those whose key is no tracking key,
/// in their original relative order.
pub open spec fn keep_pairs(ps: Seq<SpecPair>) -> Seq<SpecPair> {
    ps.filter(|p: SpecPair| !is_tracking_key(p.0))
}

/// Filtering one more pair keeps it exactly when its key is clean.
proof fn lemma_keep_pairs_push(ps: Seq<SpecPair>, x: SpecPair)
    ensures
        keep_pairs(ps.push(x)) == if is_tracking_key(x.0) {
            keep_pairs(ps)
        } else {
            keep_pairs(ps).push(x)
        },
{
    reveal(Seq::filter);
    assert(ps.push(x).drop_last() =~= ps);
    assert(ps.push(x).last() == x);
}

/// No surviving pair carries a tracking key.
pub proof fn lemma_keep_pairs_only_clean(ps: Seq<SpecPair>)
    ensures
        forall|j: int|
            0 <= j < keep_pairs(ps).len() ==> !is_tracking_key(#[trigger] keep_pairs(ps)[j].0),
{
    broadcast use group_seq_properties;

    assert forall|j: int|
        0 <= j < keep_pairs(ps).len() implies !is_tracking_key(
        #[trigger] keep_pairs(ps)[j].0,
    ) by {
        ps.lemma_filter_pred(|p: SpecPair| !is_tracking_key(p.0), j);
    }
}

/// A query with no tracking keys is kept whole, in order: sanitization
/// does not touch it.
pub proof fn lemma_keep_pairs_clean_id(ps: Seq<SpecPair>)
    requires
        forall|j: int| 0 <= j < ps.len() ==> !is_tracking_key(#[trigger] ps[j].0),
    ensures
        keep_pairs(ps) == ps,
    decreases ps.len(),
{
    reveal(Seq::filter);
    if ps.len() == 0 {
        assert(keep_pairs(ps) =~= ps);
    } else {
        lemma_keep_pairs_clean_id(ps.drop_last());
        assert(keep_pairs(ps) =~= ps.drop_last().push(ps.last()));
        assert(ps.drop_last().push(ps.last()) =~= ps);
    }
}

/// Removing tracking pairs twice removes nothing more than doing so once.
pub proof fn lemma_keep_pairs_idempotent(ps: Seq<SpecPair>)
    ensures
        keep_pairs(keep_pairs(ps)) == keep_pairs(ps),
{
    lemma_keep_pairs_only_clean(ps);
    lemma_keep_pairs_clean_id(keep_pairs(ps));
}

/// Every surviving pair was a pair of the query, and every pair of the query
/// with a clean key survives.
pub proof fn lemma_keep_pairs_membership(ps: Seq<SpecPair>, p: SpecPair)
    ensures
        keep_pairs(ps).contains(p) <==> ps.contains(p) && !is_tracking_key(p.0),
    decreases ps.len(),
{
    reveal(Seq::filter);
    if ps.len() == 0 {
    } else {
        lemma_keep_pairs_membership(ps.drop_last(), p);
        assert(ps.contains(p) <==> ps.drop_last().contains(p) || ps.last() == p) by {
            if ps.contains(p) {
                let i = choose|i: int| 0 <= i < ps.len() && ps[i] == p;
                if i < ps.len() - 1 {
                    assert(ps.drop_last()[i] == p);
                }
            }
            if ps.drop_last().contains(p) {
                let i = choose|i: int| 0 <= i < ps.drop_last().len() && ps.drop_last()[i] == p;
                assert(ps[i] == p);
            }
        }
        if !is_tracking_key(ps.last().0) {
            assert(keep_pairs(ps) == keep_pairs(ps.drop_last()).push(ps.last()));
            assert(keep_pairs(ps).contains(p) <==> keep_pairs(ps.drop_last()).contains(p)
                || ps.last() == p) by {
                let q = keep_pairs(ps.drop_last());
                if keep_pairs(ps).contains(p) {
                    let i = choose|i: int| 0 <= i < q.push(ps.last()).len() && q.push(ps.last())[i] == p;
                    if i < q.len() {
                        assert(q[i] == p);
                    }
                }
                if q.contains(p) {
                    let i = choose|i: int| 0 <= i < q.len() && q[i] == p;
                    assert(q.push(ps.last())[i] == p);
                }
                assert(q.push(ps.last())[q.len() as int] == ps.last());
            }
        }
    }
}

/// Drops every pair whose key is a tracking key; keeps the rest in order.
pub fn filter_tracking(pairs: &Vec<(String, String)>) -> (r: Vec<(String, String)>)
    ensures
        pairs_view(r@) == keep_pairs(pairs_view(pairs@)),
{
    let ghost all = pairs_view(pairs@);
    let mut r: Vec<(String, String)> = Vec::new();
    let mut i: usize = 0;
    while i < pairs.len()
        invariant
            i <= pairs@.len(),
            all == pairs_view(pairs@),
            pairs_view(r@) == keep_pairs(all.take(i as int)),
        decreases pairs@.len() - i,
    {
        let tracking = key_is_tracking(pairs[i].0.as_str());
        if !tracking {
            let k = pairs[i].0.clone();
            let v = pairs[i].1.clone();
            r.push((k, v));
        }
        proof {
            assert(all.take(i + 1).drop_last() =~= all.take(i as int));
            assert(all.take(i + 1) =~= all.take(i as int).push(all[i as int]));
            lemma_keep_pairs_push(all.take(i as int), all[i as int]);
            assert(all[i as int] == (pairs@[i as int].0@, pairs@[i as int].1@));
            if !is_tracking_key(all[i as int].0) {
                assert(pairs_view(r@) =~= keep_pairs(all.take(i as int)).push(all[i as int]));
            }
        }
        i += 1;
    }
    proof {
        assert(all.take(pairs@.len() as int) =~= all);
    }
    r
}

} // verus!
