//! Lexicographic ordering of names and sorted, duplicate-free accumulation.
//!
//! Listing operations return their names sorted lexicographically (by Unicode
//! scalar value, the order `String` itself sorts in) with duplicates removed.
//! `insert_unique` maintains that shape one name at a time.

use vstd::prelude::*;

verus! {

/// Strict lexicographic order on character sequences, comparing scalar values.
pub open spec fn lex_lt(a: Seq<char>, b: Seq<char>) -> bool
    decreases a.len(),
{
    if b.len() == 0 {
        false
    } else if a.len() == 0 {
        true
    } else if a[0] != b[0] {
        (a[0] as u32) < (b[0] as u32)
    } else {
        lex_lt(a.skip(1), b.skip(1))
    }
}

pub proof fn lemma_lex_lt_irreflexive(a: Seq<char>)
    ensures
        !lex_lt(a, a),
    decreases a.len(),
{
    if a.len() > 0 {
        lemma_lex_lt_irreflexive(a.skip(1));
    }
}

pub proof fn lemma_lex_lt_connected(a: Seq<char>, b: Seq<char>)
    ensures
        a != b ==> lex_lt(a, b) || lex_lt(b, a),
    decreases a.len(),
{
    if a.len() == 0 && b.len() == 0 {
        assert(a =~= b);
    } else if a.len() == 0 {
        assert(lex_lt(a, b));
    } else if b.len() == 0 {
        assert(lex_lt(b, a));
    } else if a[0] != b[0] {
        vstd::utf8::char_u32_cast(a[0], a[0] as u32);
        vstd::utf8::char_u32_cast(b[0], b[0] as u32);
        assert((a[0] as u32) != (b[0] as u32));
        if (a[0] as u32) < (b[0] as u32) {
            assert(lex_lt(a, b));
        } else {
            assert(lex_lt(b, a));
        }
    } else {
        lemma_lex_lt_connected(a.skip(1), b.skip(1));
        assert(lex_lt(a, b) == lex_lt(a.skip(1), b.skip(1)));
        assert(lex_lt(b, a) == lex_lt(b.skip(1), a.skip(1)));
        if a.skip(1) == b.skip(1) {
            assert forall|k: int| 0 <= k < a.len() implies a[k] == b[k] by {
                if k >= 1 {
                    assert(a.skip(1)[k - 1] == a[k]);
                    assert(b.skip(1)[k - 1] == b[k]);
                }
            }
            assert(a =~= b);
        }
    }
}

pub proof fn lemma_lex_lt_transitive(a: Seq<char>, b: Seq<char>, c: Seq<char>)
    requires
        lex_lt(a, b),
        lex_lt(b, c),
    ensures
        lex_lt(a, c),
    decreases a.len(),
{
    if a.len() > 0 && b.len() > 0 && c.len() > 0 && a[0] == b[0] && b[0] == c[0] {
        lemma_lex_lt_transitive(a.skip(1), b.skip(1), c.skip(1));
    }
}

/// With an equal prefix of length `i`, the comparison reduces to the tails.
proof fn lemma_lex_lt_common_prefix(a: Seq<char>, b: Seq<char>, i: int)
    requires
        0 <= i <= a.len(),
        i <= b.len(),
        forall|j: int| 0 <= j < i ==> a[j] == b[j],
    ensures
        lex_lt(a, b) == lex_lt(a.skip(i), b.skip(i)),
    decreases i,
{
    if i == 0 {
        assert(a.skip(0) =~= a);
        assert(b.skip(0) =~= b);
    } else {
        assert(a[0] == b[0]);
        assert forall|j: int| 0 <= j < i - 1 implies a.skip(1)[j] == b.skip(1)[j] by {
            assert(a.skip(1)[j] == a[j + 1]);
            assert(b.skip(1)[j] == b[j + 1]);
        }
        lemma_lex_lt_common_prefix(a.skip(1), b.skip(1), i - 1);
        assert(lex_lt(a, b) == lex_lt(a.skip(1), b.skip(1)));
        assert(a.skip(1).skip(i - 1) =~= a.skip(i));
        assert(b.skip(1).skip(i - 1) =~= b.skip(i));
    }
}

/// Executable lexicographic comparison of two string slices.
pub fn str_lt(a: &str, b: &str) -> (r: bool)
    ensures
        r == lex_lt(a@, b@),
{
    let an = a.unicode_len();
    let bn = b.unicode_len();
    let mut i: usize = 0;
    while i < an && i < bn
        invariant
            0 <= i <= an,
            i <= bn,
            an == a@.len(),
            bn == b@.len(),
            forall|j: int| 0 <= j < i ==> a@[j] == b@[j],
        decreases an - i,
    {
        let ca = a.get_char(i);
        let cb = b.get_char(i);
        if ca != cb {
            proof {
                lemma_lex_lt_common_prefix(a@, b@, i as int);
                assert(a@.skip(i as int)[0] == a@[i as int]);
                assert(b@.skip(i as int)[0] == b@[i as int]);
            }
            return (ca as u32) < (cb as u32);
        }
        i = i + 1;
    }
    proof {
        lemma_lex_lt_common_prefix(a@, b@, i as int);
        if i == an {
            assert(a@.skip(i as int).len() == 0);
        } else {
            assert(b@.skip(i as int).len() == 0);
        }
    }
    an < bn
}

/// The names are strictly increasing: sorted with no duplicates.
pub open spec fn strictly_sorted(v: Seq<String>) -> bool {
    forall|i: int, j: int| 0 <= i < j < v.len() ==> lex_lt(v[i]@, v[j]@)
}

/// Some element of `v` views to `x`.
pub open spec fn has_name(v: Seq<String>, x: Seq<char>) -> bool {
    exists|i: int| 0 <= i < v.len() && v[i]@ == x
}

/// A strictly sorted listing holds each name exactly once: two distinct
/// positions never carry the same name.
pub proof fn lemma_sorted_names_unique(v: Seq<String>)
    requires
        strictly_sorted(v),
    ensures
        forall|i: int, j: int| 0 <= i < j < v.len() ==> v[i]@ != v[j]@,
{
    assert forall|i: int, j: int| 0 <= i < j < v.len() implies v[i]@ != v[j]@ by {
        lemma_lex_lt_irreflexive(v[i]@);
    }
}

/// Insert `s` into the strictly sorted vector `v`, keeping it strictly
/// sorted; a name already present is not duplicated.
#[verifier::rlimit(50)]
pub fn insert_unique(v: &mut Vec<String>, s: String)
    requires
        strictly_sorted(old(v)@),
    ensures
        strictly_sorted(final(v)@),
        forall|x: Seq<char>| has_name(final(v)@, x) <==> has_name(old(v)@, x) || x == s@,
{
    let n = v.len();
    let mut i: usize = 0;
    let mut done = false;
    while !done && i < n
        invariant
            0 <= i <= n,
            n == v@.len(),
            v@ == old(v)@,
            strictly_sorted(v@),
            forall|j: int| 0 <= j < i ==> lex_lt(v@[j]@, s@),
            done ==> i < n && !lex_lt(v@[i as int]@, s@),
        decreases n - i, (if done { 0int } else { 1int }),
    {
        if str_lt(v[i].as_str(), s.as_str()) {
            i = i + 1;
        } else {
            done = true;
        }
    }
    if done {
        if crate::text::str_eq(v[i].as_str(), s.as_str()) {
            proof {
                assert(has_name(v@, s@)) by {
                    assert(v@[i as int]@ == s@);
                }
                assert forall|x: Seq<char>| has_name(v@, x) <==> has_name(old(v)@, x) || x
                    == s@ by {
                    if x == s@ {
                        assert(v@[i as int]@ == x);
                    }
                }
            }
            return ;
        }
    }
    proof {
        if done {
            lemma_lex_lt_connected(v@[i as int]@, s@);
        }
    }
    let ghost oldv = v@;
    v.insert(i, s);
    proof {
        oldv.insert_ensures(i as int, s);
        assert(v@.len() == oldv.len() + 1);
        // every old index below i keeps its place; those at or above i shift up
        assert forall|p: int, q: int| 0 <= p < q < v@.len() implies lex_lt(v@[p]@, v@[q]@) by {
            if q < i {
                assert(v@[p]@ == oldv[p]@ && v@[q]@ == oldv[q]@);
            } else if q == i {
                assert(v@[p]@ == oldv[p]@ && lex_lt(oldv[p]@, s@));
            } else {
                assert(v@[q]@ == oldv[q - 1]@);
                if p < i {
                    // p < i <= q - 1, both are old elements
                    assert(v@[p]@ == oldv[p]@);
                    assert(p < q - 1);
                } else if p == i {
                    // only reachable when the scan stopped inside the vector
                    assert(done);
                    assert(v@[p]@ == s@);
                    assert(lex_lt(s@, oldv[i as int]@));
                    if i < q - 1 {
                        lemma_lex_lt_transitive(s@, oldv[i as int]@, oldv[q - 1]@);
                    }
                } else {
                    assert(v@[p]@ == oldv[p - 1]@ && v@[q]@ == oldv[q - 1]@);
                }
            }
        }
        assert forall|x: Seq<char>| has_name(v@, x) <==> has_name(oldv, x) || x == s@ by {
            if has_name(v@, x) {
                let k = choose|k: int| 0 <= k < v@.len() && v@[k]@ == x;
                if k < i {
                    assert(oldv[k]@ == x);
                } else if k == i {
                    assert(x == s@);
                } else {
                    assert(oldv[k - 1]@ == x);
                }
            }
            if has_name(oldv, x) {
                let k = choose|k: int| 0 <= k < oldv.len() && oldv[k]@ == x;
                if k < i {
                    assert(v@[k]@ == x);
                } else {
                    assert(v@[k + 1]@ == x);
                }
            }
            if x == s@ {
                assert(v@[i as int]@ == x);
            }
        }
    }
}

} // verus!
