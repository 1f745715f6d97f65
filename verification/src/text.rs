//! Small string helpers shared by the sanitizer and the transport gate:
//! prefix tests, the query-safe alphabet, and a model of splicing a new
//! query string into a serialized URL.

use vstd::prelude::*;
use vstd::string::StrSliceExecFns;

verus! {

/// True when `p` is a prefix of `s`.
pub open spec fn has_prefix(s: Seq<char>, p: Seq<char>) -> bool {
    p.is_prefix_of(s)
}

/// Character-by-character prefix test over arbitrary Unicode strings.
pub fn str_has_prefix(s: &str, p: &str) -> (b: bool)
    ensures
        b == has_prefix(s@, p@),
{
    let n = p.unicode_len();
    if s.unicode_len() < n {
        return false;
    }
    let mut i: usize = 0;
    while i < n
        invariant
            n == p@.len(),
            i <= n,
            n <= s@.len(),
            forall|j: int| 0 <= j < i ==> s@[j] == p@[j],
        decreases n - i,
    {
        if s.get_char(i) != p.get_char(i) {
            return false;
        }
        i += 1;
    }
    assert(p@.is_prefix_of(s@)) by {
        assert(p@ =~= s@.subrange(0, p@.len() as int));
    }
    true
}

/// The characters that `application/x-www-form-urlencoded` serialization can
/// produce: ASCII letters and digits, `*-._` and `+` from its encoding, `%`
/// from percent escapes, and the `&`/`=` separators. All of them pass through
/// a URL's query component untouched, and none of them is `?` or `#`.
pub open spec fn query_safe_char(c: char) -> bool {
    ||| 48 <= c as u32 && c as u32 <= 57
    ||| 65 <= c as u32 && c as u32 <= 90
    ||| 97 <= c as u32 && c as u32 <= 122
    ||| c == '*'
    ||| c == '-'
    ||| c == '.'
    ||| c == '_'
    ||| c == '%'
    ||| c == '+'
    ||| c == '&'
    ||| c == '='
}

/// A whole string from the query-safe alphabet.
pub open spec fn query_safe(q: Seq<char>) -> bool {
    forall|i: int| 0 <= i < q.len() ==> query_safe_char(q[i])
}

/// Query-safe characters are never `?` or `#`.
pub proof fn lemma_query_safe_not_delim(c: char)
    requires
        query_safe_char(c),
    ensures
        c != '?',
        c != '#',
{
}

/// Marks where a serialized URL's query begins: `?` or `#`.
pub open spec fn is_query_delim(c: char) -> bool {
    c == '?' || c == '#'
}

/// Marks where a serialized URL's fragment begins: `#`.
pub open spec fn is_hash(c: char) -> bool {
    c == '#'
}

/// Index of the first character of `s` satisfying `p`, or `s.len()` if none.
pub open spec fn scan_to(s: Seq<char>, p: spec_fn(char) -> bool) -> int
    decreases s.len(),
{
    if s.len() == 0 {
        0
    } else if p(s.first()) {
        0
    } else {
        1 + scan_to(s.drop_first(), p)
    }
}

/// `scan_to` lands on the first satisfying character, within bounds.
pub proof fn lemma_scan_to_props(s: Seq<char>, p: spec_fn(char) -> bool)
    ensures
        0 <= scan_to(s, p) <= s.len(),
        forall|j: int| 0 <= j < scan_to(s, p) ==> !p(s[j]),
        scan_to(s, p) < s.len() ==> p(s[scan_to(s, p)]),
    decreases s.len(),
{
    if s.len() == 0 {
    } else if p(s.first()) {
    } else {
        lemma_scan_to_props(s.drop_first(), p);
        assert forall|j: int| 0 <= j < scan_to(s, p) implies !p(s[j]) by {
            if j >= 1 {
                assert(s[j] == s.drop_first()[j - 1]);
            }
        }
        if scan_to(s, p) < s.len() {
            assert(s[scan_to(s, p)] == s.drop_first()[scan_to(s.drop_first(), p)]);
        }
    }
}

/// `scan_to` is the unique index with nothing satisfying `p` before it and,
/// unless it is the length, a satisfying character at it.
pub proof fn lemma_scan_to_is(s: Seq<char>, p: spec_fn(char) -> bool, k: int)
    requires
        0 <= k <= s.len(),
        forall|j: int| 0 <= j < k ==> !p(s[j]),
        k < s.len() ==> p(s[k]),
    ensures
        scan_to(s, p) == k,
{
    lemma_scan_to_props(s, p);
    let m = scan_to(s, p);
    if m < k {
        assert(p(s[m]));
        assert(!p(s[m]));
    }
    if m > k {
        assert(!p(s[k]));
        assert(p(s[k]));
    }
}

/// Where the query of a serialized URL begins: its first `?` or `#`, else its end.
pub open spec fn qcut(s: Seq<char>) -> int {
    scan_to(s, |c: char| is_query_delim(c))
}

/// Where the fragment of a serialized URL begins: its first `#`, else its end.
pub open spec fn fcut(s: Seq<char>) -> int {
    scan_to(s, |c: char| is_hash(c))
}

/// The query begins no later than the fragment.
pub proof fn lemma_qcut_le_fcut(s: Seq<char>)
    ensures
        0 <= qcut(s) <= fcut(s) <= s.len(),
{
    lemma_scan_to_props(s, |c: char| is_query_delim(c));
    lemma_scan_to_props(s, |c: char| is_hash(c));
    if fcut(s) < qcut(s) {
        assert(is_hash(s[fcut(s)]));
        assert(!is_query_delim(s[fcut(s)]));
    }
}

/// The serialization of a URL after its query is replaced with `q`: everything
/// before the old query, then `?`, then `q`, then the old fragment.
pub open spec fn replace_query(s: Seq<char>, q: Seq<char>) -> Seq<char> {
    s.take(qcut(s)) + seq!['?'] + q + s.skip(fcut(s))
}

/// Replacing a query with `q` and then replacing it with `q` again changes
/// nothing more, as long as `q` cannot be mistaken for a fragment.
pub proof fn lemma_replace_query_idempotent(s: Seq<char>, q: Seq<char>)
    requires
        forall|i: int| 0 <= i < q.len() ==> q[i] != '#',
    ensures
        replace_query(replace_query(s, q), q) == replace_query(s, q),
{
    lemma_scan_to_props(s, |c: char| is_query_delim(c));
    lemma_scan_to_props(s, |c: char| is_hash(c));
    lemma_qcut_le_fcut(s);
    let i = qcut(s);
    let f = fcut(s);
    let r = replace_query(s, q);
    assert forall|j: int| 0 <= j < i implies !is_query_delim(r[j]) by {
        assert(r[j] == s[j]);
    }
    lemma_scan_to_is(r, |c: char| is_query_delim(c), i);
    let g = i + 1 + q.len();
    assert forall|j: int| 0 <= j < g implies !is_hash(r[j]) by {
        if j < i {
            assert(r[j] == s[j]);
            assert(!is_query_delim(s[j]));
        } else if j == i {
            assert(r[j] == '?');
        } else {
            assert(r[j] == q[j - i - 1]);
        }
    }
    if g < r.len() {
        assert(r[g] == s[f]);
    }
    lemma_scan_to_is(r, |c: char| is_hash(c), g);
    assert(replace_query(r, q) =~= r);
}

/// Replacing the query keeps any prefix that holds no `?` or `#`.
pub proof fn lemma_replace_query_prefix(s: Seq<char>, q: Seq<char>, p: Seq<char>)
    requires
        has_prefix(s, p),
        forall|i: int| 0 <= i < p.len() ==> !is_query_delim(p[i]),
    ensures
        has_prefix(replace_query(s, q), p),
{
    lemma_scan_to_props(s, |c: char| is_query_delim(c));
    lemma_qcut_le_fcut(s);
    if qcut(s) < p.len() {
        assert(s[qcut(s)] == p[qcut(s)]);
        assert(is_query_delim(s[qcut(s)]));
        assert(!is_query_delim(p[qcut(s)]));
    }
    assert(p =~= replace_query(s, q).subrange(0, p.len() as int));
}

} // verus!
