//! Primitive text operations the scanner is built on: first-occurrence
//! substring search, the marker matcher that every single-line field
//! extraction uses, and whitespace trimming and stripping.

use vstd::prelude::*;

verus! {

/// `p` occurs in `s` starting at character index `i`.
pub open spec fn matches_at(s: Seq<char>, p: Seq<char>, i: int) -> bool {
    0 <= i && i + p.len() <= s.len() && s.subrange(i, i + p.len() as int) == p
}

/// Character index of the first occurrence of `p` in `s` at or after `i`,
/// or `None` when `p` does not occur there.
pub open spec fn find_from(s: Seq<char>, p: Seq<char>, i: int) -> Option<int>
    decreases s.len() - i
        when 0 <= i
        via find_from_decreases
{
    if i + p.len() > s.len() {
        None
    } else if s.subrange(i, i + p.len() as int) == p {
        Some(i)
    } else {
        find_from(s, p, i + 1)
    }
}

#[via_fn]
proof fn find_from_decreases(s: Seq<char>, p: Seq<char>, i: int) {
    if 0 <= i && i + p.len() <= s.len() && s.subrange(i, i + p.len() as int) != p {
        if p.len() == 0 {
            assert(s.subrange(i, i + p.len() as int) =~= p);
        }
    }
}

/// A pattern that fails to match in range is non-empty: the empty pattern
/// matches everywhere.
proof fn lemma_pattern_positive(s: Seq<char>, p: Seq<char>, i: int)
    requires
        0 <= i,
        i + p.len() <= s.len(),
        s.subrange(i, i + p.len() as int) != p,
    ensures
        p.len() > 0,
{
    if p.len() == 0 {
        assert(s.subrange(i, i + p.len() as int) =~= p);
    }
}

/// `s` contains an occurrence of `p`.
pub open spec fn contains_sub(s: Seq<char>, p: Seq<char>) -> bool {
    find_from(s, p, 0) is Some
}

/// `s` begins with `p`.
pub open spec fn starts_with(s: Seq<char>, p: Seq<char>) -> bool {
    p.len() <= s.len() && s.subrange(0, p.len() as int) == p
}

/// `s` ends with `p`.
pub open spec fn ends_with(s: Seq<char>, p: Seq<char>) -> bool {
    p.len() <= s.len() && s.subrange(s.len() - p.len(), s.len() as int) == p
}

/// A found index is a real occurrence, and no occurrence precedes it.
pub proof fn lemma_find_from_some(s: Seq<char>, p: Seq<char>, c: int, i: int)
    requires
        0 <= c,
        find_from(s, p, c) == Some(i),
    ensures
        c <= i,
        matches_at(s, p, i),
        forall|j: int| c <= j < i ==> !matches_at(s, p, j),
    decreases s.len() - c,
{
    if c + p.len() > s.len() {
        // contradiction: find_from is None here
    } else if s.subrange(c, c + p.len() as int) == p {
        // i == c
    } else {
        lemma_pattern_positive(s, p, c);
        lemma_find_from_some(s, p, c + 1, i);
    }
}

/// Compares the characters of `s` at positions `i..i + p.len()` with `p`.
fn check_match_at(s: &str, p: &str, i: usize, n: usize, m: usize) -> (r: bool)
    requires
        n == s@.len(),
        m == p@.len(),
        i + m <= n,
    ensures
        r == matches_at(s@, p@, i as int),
{
    let mut k: usize = 0;
    while k < m
        invariant
            0 <= k <= m,
            n == s@.len(),
            m == p@.len(),
            i + m <= n,
            forall|t: int| 0 <= t < k ==> s@[i + t] == p@[t],
        decreases m - k,
    {
        if s.get_char(i + k) != p.get_char(k) {
            assert(!matches_at(s@, p@, i as int)) by {
                if s@.subrange(i as int, i + m as int) == p@ {
                    assert(s@.subrange(i as int, i + m as int)[k as int] == s@[i + k]);
                }
            }
            return false;
        }
        k += 1;
    }
    assert(s@.subrange(i as int, i + m as int) =~= p@);
    true
}

/// Character index of the first occurrence of `p` in `s`, if any.
pub fn find_sub(s: &str, p: &str) -> (r: Option<usize>)
    ensures
        match r {
            Some(i) => find_from(s@, p@, 0) == Some(i as int),
            None => find_from(s@, p@, 0) is None,
        },
{
    let n = s.unicode_len();
    let m = p.unicode_len();
    if m > n {
        return None;
    }
    if m == 0 {
        proof {
            assert(s@.subrange(0, 0) =~= p@);
        }
        return Some(0);
    }
    let mut i: usize = 0;
    while i <= n - m
        invariant
            0 <= i <= n - m + 1,
            0 < m <= n,
            n == s@.len(),
            m == p@.len(),
            find_from(s@, p@, 0) == find_from(s@, p@, i as int),
        decreases n - i,
    {
        if check_match_at(s, p, i, n, m) {
            return Some(i);
        }
        assert(find_from(s@, p@, i as int) == find_from(s@, p@, i + 1));
        i += 1;
    }
    None
}

/// `s` contains an occurrence of `p`.
pub fn has_sub(s: &str, p: &str) -> (r: bool)
    ensures
        r == contains_sub(s@, p@),
{
    find_sub(s, p).is_some()
}

/// `s` begins with `p`.
pub fn has_prefix(s: &str, p: &str) -> (r: bool)
    ensures
        r == starts_with(s@, p@),
{
    let n = s.unicode_len();
    let m = p.unicode_len();
    if m > n {
        false
    } else {
        check_match_at(s, p, 0, n, m)
    }
}

/// `s` ends with `p`.
pub fn has_suffix(s: &str, p: &str) -> (r: bool)
    ensures
        r == ends_with(s@, p@),
{
    let n = s.unicode_len();
    let m = p.unicode_len();
    if m > n {
        false
    } else {
        check_match_at(s, p, n - m, n, m)
    }
}

/// The text strictly between the first occurrence of `a` and the following
/// occurrence of `b`, or `None` when either marker is absent. When `a` and
/// `b` are the same marker this is the text between its first and second
/// occurrence, not a balanced match.
pub open spec fn between(s: Seq<char>, a: Seq<char>, b: Seq<char>) -> Option<Seq<char>> {
    match find_from(s, a, 0) {
        Some(i) => {
            let tail = s.subrange(i + a.len(), s.len() as int);
            match find_from(tail, b, 0) {
                Some(j) => Some(tail.subrange(0, j)),
                None => None,
            }
        },
        None => None,
    }
}

/// The marker matcher every extractor is built on: the text strictly between
/// the first occurrence of `a` in `s` and the following occurrence of `b`.
pub fn extract_between<'a>(s: &'a str, a: &str, b: &str) -> (r: Option<&'a str>)
    ensures
        match r {
            Some(t) => between(s@, a@, b@) == Some(t@),
            None => between(s@, a@, b@) is None,
        },
{
    let n = s.unicode_len();
    let la = a.unicode_len();
    match find_sub(s, a) {
        None => None,
        Some(i) => {
            proof {
                lemma_find_from_some(s@, a@, 0, i as int);
            }
            let tail = s.substring_char(i + la, n);
            match find_sub(tail, b) {
                None => None,
                Some(j) => {
                    proof {
                        lemma_find_from_some(tail@, b@, 0, j as int);
                    }
                    Some(tail.substring_char(0, j))
                },
            }
        },
    }
}

/// The whitespace characters the scanner recognizes.
pub open spec fn is_space_char(c: char) -> bool {
    c == ' ' || c == '\t' || c == '\r' || c == '\n'
}

/// Whether `c` is one of the recognized whitespace characters.
pub fn is_space(c: char) -> (r: bool)
    ensures
        r == is_space_char(c),
{
    c == ' ' || c == '\t' || c == '\r' || c == '\n'
}

/// `s` without its leading whitespace.
pub open spec fn trim_start_spec(s: Seq<char>) -> Seq<char>
    decreases s.len(),
{
    if s.len() > 0 && is_space_char(s[0]) {
        trim_start_spec(s.drop_first())
    } else {
        s
    }
}

/// Drops leading whitespace from `s`.
pub fn trim_start_str<'a>(s: &'a str) -> (r: &'a str)
    ensures
        r@ == trim_start_spec(s@),
{
    let n = s.unicode_len();
    let mut i: usize = 0;
    proof {
        assert(s@.skip(0) =~= s@);
    }
    while i < n && is_space(s.get_char(i))
        invariant
            0 <= i <= n,
            n == s@.len(),
            trim_start_spec(s@) == trim_start_spec(s@.skip(i as int)),
        decreases n - i,
    {
        proof {
            assert(s@.skip(i as int).drop_first() =~= s@.skip(i + 1));
        }
        i += 1;
    }
    proof {
        assert(s@.skip(i as int) =~= s@.subrange(i as int, n as int));
        if i < n {
            assert(trim_start_spec(s@.skip(i as int)) == s@.skip(i as int));
        }
    }
    s.substring_char(i, n)
}

/// `s` without its trailing whitespace.
pub open spec fn trim_end_spec(s: Seq<char>) -> Seq<char>
    decreases s.len(),
{
    if s.len() > 0 && is_space_char(s[s.len() - 1]) {
        trim_end_spec(s.drop_last())
    } else {
        s
    }
}

/// `s` without leading or trailing whitespace.
pub open spec fn trim_spec(s: Seq<char>) -> Seq<char> {
    trim_end_spec(trim_start_spec(s))
}

/// Drops leading and trailing whitespace from `s`.
pub fn trim_str<'a>(s: &'a str) -> (r: &'a str)
    ensures
        r@ == trim_spec(s@),
{
    let t = trim_start_str(s);
    let n = t.unicode_len();
    let mut j: usize = n;
    proof {
        assert(t@.take(n as int) =~= t@);
    }
    while j > 0 && is_space(t.get_char(j - 1))
        invariant
            0 <= j <= n,
            n == t@.len(),
            trim_end_spec(t@) == trim_end_spec(t@.take(j as int)),
        decreases j,
    {
        proof {
            assert(t@.take(j as int).drop_last() =~= t@.take(j - 1));
            assert(t@.take(j as int)[j - 1] == t@[j - 1]);
        }
        j -= 1;
    }
    proof {
        if j > 0 {
            assert(t@.take(j as int)[j - 1] == t@[j - 1]);
            assert(trim_end_spec(t@.take(j as int)) == t@.take(j as int));
        } else {
            assert(t@.take(0) =~= Seq::<char>::empty());
        }
        assert(t@.take(j as int) =~= t@.subrange(0, j as int));
    }
    t.substring_char(0, j)
}

/// `s` without any of the recognized whitespace characters.
pub open spec fn strip_spaces_spec(s: Seq<char>) -> Seq<char>
    decreases s.len(),
{
    if s.len() == 0 {
        Seq::empty()
    } else if is_space_char(s[0]) {
        strip_spaces_spec(s.drop_first())
    } else {
        seq![s[0]] + strip_spaces_spec(s.drop_first())
    }
}

/// Removes every recognized whitespace character from `s`.
pub fn strip_spaces(s: &str) -> (r: String)
    ensures
        r@ == strip_spaces_spec(s@),
{
    let n = s.unicode_len();
    let mut out = String::new();
    let mut i: usize = 0;
    proof {
        assert(s@.skip(0) =~= s@);
    }
    while i < n
        invariant
            0 <= i <= n,
            n == s@.len(),
            out@ + strip_spaces_spec(s@.skip(i as int)) == strip_spaces_spec(s@),
        decreases n - i,
    {
        let c = s.get_char(i);
        proof {
            assert(s@.skip(i as int).drop_first() =~= s@.skip(i + 1));
            assert(s@.skip(i as int)[0] == c);
        }
        if !is_space(c) {
            let piece = s.substring_char(i, i + 1);
            proof {
                assert(piece@ =~= seq![c]);
            }
            out.append(piece);
            proof {
                assert(out@ + strip_spaces_spec(s@.skip(i + 1)) =~= strip_spaces_spec(s@));
            }
        }
        i += 1;
    }
    proof {
        assert(s@.skip(n as int) =~= Seq::<char>::empty());
        assert(out@ + Seq::<char>::empty() =~= out@);
    }
    out
}

} // verus!

