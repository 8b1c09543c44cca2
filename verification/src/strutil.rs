//! Verified string helpers: character-level equality, prefix tests, and
//! ASCII-case-insensitive substring search over `Seq<char>` views.

use vstd::prelude::*;

verus! {

/// Maps an ASCII uppercase letter to its lowercase form; leaves every other
/// character unchanged.
pub open spec fn ascii_lower_char(c: char) -> char {
    if 'A' <= c && c <= 'Z' {
        ((c as u32) + 32) as char
    } else {
        c
    }
}

/// Applies `ascii_lower_char` to every character of a sequence.
pub open spec fn ascii_lower_seq(s: Seq<char>) -> Seq<char> {
    s.map_values(|c: char| ascii_lower_char(c))
}

/// Executable ASCII lowercase of one character.
pub fn ascii_lower(c: char) -> (r: char)
    ensures
        r == ascii_lower_char(c),
{
    if 'A' <= c && c <= 'Z' {
        (c as u8 + 32) as char
    } else {
        c
    }
}

/// Character-by-character equality of two string slices.
pub fn str_eq(a: &str, b: &str) -> (r: bool)
    ensures
        r == (a@ == b@),
{
    let alen = a.unicode_len();
    let blen = b.unicode_len();
    if alen != blen {
        return false;
    }
    let mut i: usize = 0;
    while i < alen
        invariant
            alen == a@.len(),
            alen == b@.len(),
            i <= alen,
            forall|j: int| 0 <= j < i ==> a@[j] == b@[j],
        decreases alen - i,
    {
        if a.get_char(i) != b.get_char(i) {
            return false;
        }
        i += 1;
    }
    proof {
        assert(a@ =~= b@);
    }
    true
}

/// The index of the first occurrence of `c` in `s`, if any.
pub open spec fn find_char(s: Seq<char>, c: char) -> Option<int>
    decreases s.len(),
{
    if s.len() == 0 {
        None
    } else if s[0] == c {
        Some(0int)
    } else {
        match find_char(s.drop_first(), c) {
            Some(i) => Some(i + 1),
            None => None,
        }
    }
}

/// How many times `c` occurs in `s`.
pub open spec fn count_char(s: Seq<char>, c: char) -> nat
    decreases s.len(),
{
    if s.len() == 0 {
        0nat
    } else {
        (if s[0] == c {
            1nat
        } else {
            0nat
        }) + count_char(s.drop_first(), c)
    }
}

/// A found index lies inside the string, holds the character, and is the
/// first to do so.
pub proof fn lemma_find_char_first(s: Seq<char>, c: char)
    ensures
        match find_char(s, c) {
            Some(i) => 0 <= i < s.len() && s[i] == c && forall|j: int| 0 <= j < i ==> s[j] != c,
            None => forall|j: int| 0 <= j < s.len() ==> s[j] != c,
        },
    decreases s.len(),
{
    if s.len() > 0 && s[0] != c {
        lemma_find_char_first(s.drop_first(), c);
        assert forall|j: int| 1 <= j < s.len() implies s.drop_first()[j - 1] == s[j] by {}
    }
}

/// `c` occurs in `s` exactly when the search finds an index.
pub proof fn lemma_find_char_count(s: Seq<char>, c: char)
    ensures
        (count_char(s, c) > 0) <==> find_char(s, c) is Some,
    decreases s.len(),
{
    if s.len() > 0 {
        lemma_find_char_count(s.drop_first(), c);
    }
}

/// Executable first-occurrence search for one character.
pub fn find_char_in(s: &str, c: char) -> (r: Option<usize>)
    ensures
        match r {
            Some(i) => find_char(s@, c) == Some(i as int),
            None => find_char(s@, c) is None,
        },
{
    let len = s.unicode_len();
    let mut i: usize = 0;
    proof {
        assert(s@.skip(0) =~= s@);
    }
    while i < len
        invariant
            len == s@.len(),
            i <= len,
            match find_char(s@.skip(i as int), c) {
                Some(k) => find_char(s@, c) == Some(k + i),
                None => find_char(s@, c) is None,
            },
        decreases len - i,
    {
        let ghost rest = s@.skip(i as int);
        proof {
            assert(rest[0] == s@[i as int]);
            assert(rest.drop_first() =~= s@.skip(i as int + 1));
        }
        if s.get_char(i) == c {
            return Some(i);
        }
        i += 1;
    }
    proof {
        assert(s@.skip(len as int) =~= Seq::<char>::empty());
    }
    None
}

/// Executable occurrence count for one character.
pub fn count_char_in(s: &str, c: char) -> (r: usize)
    ensures
        r as nat == count_char(s@, c),
{
    let len = s.unicode_len();
    let mut n: usize = 0;
    let mut i: usize = 0;
    proof {
        assert(s@.skip(0) =~= s@);
    }
    while i < len
        invariant
            len == s@.len(),
            i <= len,
            n <= i,
            count_char(s@, c) == n + count_char(s@.skip(i as int), c),
        decreases len - i,
    {
        let ghost rest = s@.skip(i as int);
        proof {
            assert(rest[0] == s@[i as int]);
            assert(rest.drop_first() =~= s@.skip(i as int + 1));
        }
        if s.get_char(i) == c {
            n += 1;
        }
        i += 1;
    }
    proof {
        assert(s@.skip(len as int) =~= Seq::<char>::empty());
    }
    n
}

/// The index of the first position where the ASCII-lowercase folding of `s`
/// contains `n`, if any.
pub open spec fn find_fold(s: Seq<char>, n: Seq<char>) -> Option<int>
    decreases s.len(),
{
    if n.len() == 0 {
        Some(0int)
    } else if s.len() < n.len() {
        None
    } else if ascii_lower_seq(s.take(n.len() as int)) == n {
        Some(0int)
    } else {
        match find_fold(s.drop_first(), n) {
            Some(i) => Some(i + 1),
            None => None,
        }
    }
}

/// A found fold-match index lies inside the string with room for the needle.
pub proof fn lemma_find_fold_bounds(s: Seq<char>, n: Seq<char>)
    ensures
        match find_fold(s, n) {
            Some(i) => 0 <= i && i + n.len() <= s.len(),
            None => true,
        },
    decreases s.len(),
{
    if n.len() > 0 && s.len() >= n.len() && ascii_lower_seq(s.take(n.len() as int)) != n {
        lemma_find_fold_bounds(s.drop_first(), n);
    }
}

/// Whether the ASCII-lowercase folding of `s` equals `n` on the window
/// starting at `i`.
fn fold_match_at(s: &str, i: usize, n: &str) -> (r: bool)
    requires
        i + n@.len() <= s@.len(),
        s@.len() <= usize::MAX,
    ensures
        r == (ascii_lower_seq(s@.subrange(i as int, i as int + n@.len() as int)) == n@),
{
    let nlen = n.unicode_len();
    let ghost sub = s@.subrange(i as int, i as int + n@.len() as int);
    let mut j: usize = 0;
    while j < nlen
        invariant
            nlen == n@.len(),
            i + nlen <= s@.len(),
            s@.len() <= usize::MAX,
            j <= nlen,
            sub == s@.subrange(i as int, i as int + n@.len() as int),
            forall|t: int| 0 <= t < j ==> ascii_lower_char(s@[i + t]) == n@[t],
        decreases nlen - j,
    {
        if ascii_lower(s.get_char(i + j)) != n.get_char(j) {
            proof {
                assert(sub[j as int] == s@[i + j]);
                assert(ascii_lower_seq(sub)[j as int] == ascii_lower_char(sub[j as int]));
            }
            return false;
        }
        j += 1;
    }
    proof {
        assert forall|t: int| 0 <= t < nlen implies ascii_lower_seq(sub)[t] == n@[t] by {
            assert(sub[t] == s@[i + t]);
            assert(ascii_lower_seq(sub)[t] == ascii_lower_char(sub[t]));
        }
        assert(ascii_lower_seq(sub) =~= n@);
    }
    true
}

/// First position where the ASCII-lowercase folding of `s` contains `n`.
pub fn find_fold_in(s: &str, n: &str) -> (r: Option<usize>)
    ensures
        match r {
            Some(i) => find_fold(s@, n@) == Some(i as int),
            None => find_fold(s@, n@) is None,
        },
{
    let slen = s.unicode_len();
    let nlen = n.unicode_len();
    if nlen == 0 {
        return Some(0);
    }
    if nlen > slen {
        return None;
    }
    let mut i: usize = 0;
    proof {
        assert(s@.skip(0) =~= s@);
    }
    while i <= slen - nlen
        invariant
            slen == s@.len(),
            nlen == n@.len(),
            1 <= nlen <= slen,
            i <= slen - nlen + 1,
            match find_fold(s@.skip(i as int), n@) {
                Some(k) => find_fold(s@, n@) == Some(k + i),
                None => find_fold(s@, n@) is None,
            },
        decreases slen - i,
    {
        let ghost rest = s@.skip(i as int);
        proof {
            assert(rest.take(nlen as int) =~= s@.subrange(i as int, i as int + nlen as int));
            assert(rest.drop_first() =~= s@.skip(i as int + 1));
        }
        if fold_match_at(s, i, n) {
            return Some(i);
        }
        i += 1;
    }
    proof {
        assert(s@.skip(i as int).len() < n@.len());
    }
    None
}

/// True exactly when `p@` is a prefix of `s@`.
pub fn str_starts_with(s: &str, p: &str) -> (r: bool)
    ensures
        r == (p@.len() <= s@.len() && s@.subrange(0, p@.len() as int) == p@),
{
    let slen = s.unicode_len();
    let plen = p.unicode_len();
    if plen > slen {
        return false;
    }
    let mut i: usize = 0;
    while i < plen
        invariant
            slen == s@.len(),
            plen == p@.len(),
            plen <= slen,
            i <= plen,
            forall|j: int| 0 <= j < i ==> s@[j] == p@[j],
        decreases plen - i,
    {
        if s.get_char(i) != p.get_char(i) {
            proof {
                assert(s@.subrange(0, p@.len() as int)[i as int] != p@[i as int]);
            }
            return false;
        }
        i += 1;
    }
    proof {
        assert(s@.subrange(0, p@.len() as int) =~= p@);
    }
    true
}

} // verus!
