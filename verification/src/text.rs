//! Character-sequence utilities shared by the resolution and listing code.
//!
//! All specifications are stated over `Seq<char>`, the view of `str` and
//! `String`; the executable functions walk strings with `get_char` and build
//! results with `substring_char` and `append`.

use vstd::prelude::*;

verus! {

/// Index of the first occurrence of `c` in `s`, or `-1` when absent.
pub open spec fn first_index_of(s: Seq<char>, c: char) -> int
    decreases s.len(),
{
    if s.len() == 0 {
        -1
    } else if s[0] == c {
        0
    } else {
        let r = first_index_of(s.skip(1), c);
        if r == -1 {
            -1
        } else {
            r + 1
        }
    }
}

/// Index of the last occurrence of `c` in `s`, or `-1` when absent.
pub open spec fn last_index_of(s: Seq<char>, c: char) -> int
    decreases s.len(),
{
    if s.len() == 0 {
        -1
    } else if s[s.len() - 1] == c {
        s.len() - 1
    } else {
        last_index_of(s.take(s.len() - 1), c)
    }
}

/// `pat` occurs in `s` at position `i`.
pub open spec fn matches_at(s: Seq<char>, i: int, pat: Seq<char>) -> bool {
    0 <= i && i + pat.len() <= s.len() && s.subrange(i, i + pat.len()) == pat
}

pub open spec fn starts_with(s: Seq<char>, p: Seq<char>) -> bool {
    matches_at(s, 0, p)
}

pub open spec fn ends_with(s: Seq<char>, p: Seq<char>) -> bool {
    matches_at(s, s.len() - p.len(), p)
}

pub open spec fn contains_char(s: Seq<char>, c: char) -> bool {
    first_index_of(s, c) != -1
}

pub proof fn lemma_first_index_of(s: Seq<char>, c: char)
    ensures
        first_index_of(s, c) == -1 ==> forall|j: int| 0 <= j < s.len() ==> s[j] != c,
        first_index_of(s, c) != -1 ==> {
            let r = first_index_of(s, c);
            &&& 0 <= r < s.len()
            &&& s[r] == c
            &&& forall|j: int| 0 <= j < r ==> s[j] != c
        },
    decreases s.len(),
{
    if s.len() != 0 && s[0] != c {
        let t = s.skip(1);
        lemma_first_index_of(t, c);
        assert(forall|j: int| 0 <= j < t.len() ==> t[j] == s[j + 1]);
        if first_index_of(t, c) == -1 {
            assert forall|j: int| 0 <= j < s.len() implies s[j] != c by {
                if j >= 1 {
                    assert(t[j - 1] == s[j]);
                }
            }
        } else {
            let r = first_index_of(t, c);
            assert(s[r + 1] == t[r]);
            assert forall|j: int| 0 <= j < r + 1 implies s[j] != c by {
                if j >= 1 {
                    assert(t[j - 1] == s[j]);
                }
            }
        }
    }
}

pub proof fn lemma_last_index_of(s: Seq<char>, c: char)
    ensures
        last_index_of(s, c) == -1 ==> forall|j: int| 0 <= j < s.len() ==> s[j] != c,
        last_index_of(s, c) != -1 ==> {
            let r = last_index_of(s, c);
            &&& 0 <= r < s.len()
            &&& s[r] == c
            &&& forall|j: int| r < j < s.len() ==> s[j] != c
        },
    decreases s.len(),
{
    if s.len() != 0 && s[s.len() - 1] != c {
        let t = s.take(s.len() - 1);
        lemma_last_index_of(t, c);
        assert(forall|j: int| 0 <= j < t.len() ==> t[j] == s[j]);
    }
}

/// First occurrence of the character `c`, as an executable search.
pub fn str_index_of_char(s: &str, c: char) -> (r: Option<usize>)
    ensures
        match r {
            Some(i) => first_index_of(s@, c) == i,
            None => first_index_of(s@, c) == -1,
        },
{
    let n = s.unicode_len();
    let mut i: usize = 0;
    proof {
        lemma_first_index_of(s@, c);
    }
    while i < n
        invariant
            0 <= i <= n,
            n == s@.len(),
            forall|j: int| 0 <= j < i ==> s@[j] != c,
            first_index_of(s@, c) == -1 ==> forall|j: int| 0 <= j < s@.len() ==> s@[j] != c,
            first_index_of(s@, c) != -1 ==> {
                let r = first_index_of(s@, c);
                &&& 0 <= r < s@.len()
                &&& s@[r] == c
                &&& forall|j: int| 0 <= j < r ==> s@[j] != c
            },
        decreases n - i,
    {
        if s.get_char(i) == c {
            return Some(i);
        }
        i = i + 1;
    }
    None
}

/// Last occurrence of the character `c`, as an executable search.
pub fn str_last_index_of_char(s: &str, c: char) -> (r: Option<usize>)
    ensures
        match r {
            Some(i) => last_index_of(s@, c) == i,
            None => last_index_of(s@, c) == -1,
        },
{
    let n = s.unicode_len();
    let mut i: usize = n;
    proof {
        lemma_last_index_of(s@, c);
    }
    while i > 0
        invariant
            0 <= i <= n,
            n == s@.len(),
            forall|j: int| i <= j < n ==> s@[j] != c,
            last_index_of(s@, c) == -1 ==> forall|j: int| 0 <= j < s@.len() ==> s@[j] != c,
            last_index_of(s@, c) != -1 ==> {
                let r = last_index_of(s@, c);
                &&& 0 <= r < s@.len()
                &&& s@[r] == c
                &&& forall|j: int| r < j < s@.len() ==> s@[j] != c
            },
        decreases i,
    {
        i = i - 1;
        if s.get_char(i) == c {
            return Some(i);
        }
    }
    None
}

/// Whether `pat` occurs in `s` at position `i`.
pub fn str_matches_at(s: &str, i: usize, pat: &str) -> (r: bool)
    requires
        i <= s@.len(),
    ensures
        r == matches_at(s@, i as int, pat@),
{
    let n = s.unicode_len();
    let m = pat.unicode_len();
    if m > n - i {
        return false;
    }
    let mut k: usize = 0;
    while k < m
        invariant
            0 <= k <= m,
            n == s@.len(),
            m == pat@.len(),
            i + m <= n,
            forall|j: int| 0 <= j < k ==> s@[i + j] == pat@[j],
        decreases m - k,
    {
        if s.get_char(i + k) != pat.get_char(k) {
            assert(s@.subrange(i as int, i + m) != pat@) by {
                assert(s@.subrange(i as int, i + m)[k as int] == s@[i + k]);
            }
            return false;
        }
        k = k + 1;
    }
    assert(s@.subrange(i as int, i + m) =~= pat@);
    true
}

pub fn str_starts_with(s: &str, p: &str) -> (r: bool)
    ensures
        r == starts_with(s@, p@),
{
    str_matches_at(s, 0, p)
}

pub fn str_ends_with(s: &str, p: &str) -> (r: bool)
    ensures
        r == ends_with(s@, p@),
{
    let n = s.unicode_len();
    let m = p.unicode_len();
    if m > n {
        return false;
    }
    str_matches_at(s, n - m, p)
}

/// Character-for-character equality of two string slices.
pub fn str_eq(a: &str, b: &str) -> (r: bool)
    ensures
        r == (a@ == b@),
{
    let n = a.unicode_len();
    if n != b.unicode_len() {
        return false;
    }
    let mut i: usize = 0;
    while i < n
        invariant
            0 <= i <= n,
            n == a@.len(),
            n == b@.len(),
            forall|j: int| 0 <= j < i ==> a@[j] == b@[j],
        decreases n - i,
    {
        if a.get_char(i) != b.get_char(i) {
            return false;
        }
        i = i + 1;
    }
    assert(a@ =~= b@);
    true
}

pub fn str_contains_char(s: &str, c: char) -> (r: bool)
    ensures
        r == contains_char(s@, c),
{
    match str_index_of_char(s, c) {
        Some(_) => true,
        None => false,
    }
}

/// Copy a string slice into an owned `String`.
pub fn str_copy(s: &str) -> (r: String)
    ensures
        r@ == s@,
{
    String::from_str(s)
}

/// `s` with every non-overlapping occurrence of `pat`, scanned left to
/// right, removed.
pub open spec fn remove_all(s: Seq<char>, pat: Seq<char>) -> Seq<char>
    decreases s.len(),
{
    if pat.len() == 0 || s.len() < pat.len() {
        s
    } else if s.subrange(0, pat.len() as int) == pat {
        remove_all(s.skip(pat.len() as int), pat)
    } else {
        seq![s[0]] + remove_all(s.skip(1), pat)
    }
}

/// `s` with the first `n` non-overlapping occurrences of `pat`, scanned left
/// to right, removed.
pub open spec fn remove_first_n(s: Seq<char>, pat: Seq<char>, n: nat) -> Seq<char>
    decreases s.len(),
{
    if n == 0 || pat.len() == 0 || s.len() < pat.len() {
        s
    } else if s.subrange(0, pat.len() as int) == pat {
        remove_first_n(s.skip(pat.len() as int), pat, (n - 1) as nat)
    } else {
        seq![s[0]] + remove_first_n(s.skip(1), pat, n)
    }
}

/// `s` with every trailing repetition of `suf` removed.
pub open spec fn trim_suffix_all(s: Seq<char>, suf: Seq<char>) -> Seq<char>
    decreases s.len(),
{
    if suf.len() == 0 || !ends_with(s, suf) {
        s
    } else {
        trim_suffix_all(s.take(s.len() - suf.len()), suf)
    }
}

/// The remainder of path `p` under directory `d`: strip `d` together with
/// the separating `/`, as `Path::strip_prefix` does. `None` when `p` does
/// not lie under `d`.
pub open spec fn strip_dir_prefix(p: Seq<char>, d: Seq<char>) -> Option<Seq<char>> {
    if p == d {
        Some(Seq::empty())
    } else if d.len() == 0 {
        Some(p)
    } else if d[d.len() - 1] == '/' && starts_with(p, d) {
        Some(p.skip(d.len() as int))
    } else if starts_with(p, d + "/"@) {
        Some(p.skip(d.len() as int + 1))
    } else {
        None
    }
}

/// Executable computation of [`strip_dir_prefix`].
pub fn str_strip_dir_prefix(p: &str, d: &str) -> (r: Option<String>)
    ensures
        match r {
            Some(rest) => strip_dir_prefix(p@, d@) == Some(rest@),
            None => strip_dir_prefix(p@, d@) is None,
        },
{
    proof {
        reveal_strlit("/");
    }
    let pn = p.unicode_len();
    let dn = d.unicode_len();
    if str_eq(p, d) {
        let empty = String::new();
        assert(empty@ =~= Seq::<char>::empty());
        return Some(empty);
    }
    if dn == 0 {
        return Some(str_copy(p));
    }
    if d.get_char(dn - 1) == '/' && str_starts_with(p, d) {
        return Some(str_copy(p.substring_char(dn, pn)));
    }
    let mut with_sep = str_copy(d);
    with_sep.append("/");
    if str_starts_with(p, with_sep.as_str()) {
        assert(p@.len() >= d@.len() + 1);
        return Some(str_copy(p.substring_char(dn + 1, pn)));
    }
    None
}

/// Remove every occurrence of `pat` from `s`, as `str::replace` with an
/// empty replacement does.
pub fn str_remove_all(s: &str, pat: &str) -> (r: String)
    ensures
        r@ == remove_all(s@, pat@),
    decreases s@.len(),
{
    let n = s.unicode_len();
    let m = pat.unicode_len();
    if m == 0 || n < m {
        return str_copy(s);
    }
    if str_matches_at(s, 0, pat) {
        let rest = s.substring_char(m, n);
        assert(rest@ =~= s@.skip(m as int));
        str_remove_all(rest, pat)
    } else {
        let head = s.substring_char(0, 1);
        let rest = s.substring_char(1, n);
        assert(rest@ =~= s@.skip(1));
        let tail = str_remove_all(rest, pat);
        let r = str_copy(head).concat(tail.as_str());
        proof {
            assert(head@ =~= seq![s@[0]]);
            assert(r@ =~= seq![s@[0]] + remove_all(s@.skip(1), pat@));
        }
        r
    }
}

/// Remove the first `n` occurrences of `pat` from `s`, as `str::replacen`
/// with an empty replacement does.
pub fn str_remove_first_n(s: &str, pat: &str, n: usize) -> (r: String)
    ensures
        r@ == remove_first_n(s@, pat@, n as nat),
    decreases s@.len(),
{
    let len = s.unicode_len();
    let m = pat.unicode_len();
    if n == 0 || m == 0 || len < m {
        return str_copy(s);
    }
    if str_matches_at(s, 0, pat) {
        let rest = s.substring_char(m, len);
        assert(rest@ =~= s@.skip(m as int));
        str_remove_first_n(rest, pat, n - 1)
    } else {
        let head = s.substring_char(0, 1);
        let rest = s.substring_char(1, len);
        assert(rest@ =~= s@.skip(1));
        let tail = str_remove_first_n(rest, pat, n);
        let r = str_copy(head).concat(tail.as_str());
        proof {
            assert(head@ =~= seq![s@[0]]);
            assert(r@ =~= seq![s@[0]] + remove_first_n(s@.skip(1), pat@, n as nat));
        }
        r
    }
}

/// Remove trailing repetitions of `suf` from `s`, as `str::trim_end_matches`
/// does.
pub fn str_trim_suffix_all(s: &str, suf: &str) -> (r: String)
    ensures
        r@ == trim_suffix_all(s@, suf@),
    decreases s@.len(),
{
    let m = suf.unicode_len();
    if m == 0 {
        return str_copy(s);
    }
    if str_ends_with(s, suf) {
        let n = s.unicode_len();
        let shorter = s.substring_char(0, n - m);
        assert(shorter@ =~= s@.take(s@.len() - suf@.len()));
        str_trim_suffix_all(shorter, suf)
    } else {
        str_copy(s)
    }
}

} // verus!
