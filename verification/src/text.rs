//! Character-sequence scanning primitives shared by the template engine,
//! the MIME table parser and the renderer.

use vstd::prelude::*;

verus! {

/// ASCII whitespace, the class the scanners treat as a token separator.
pub open spec fn is_space(c: char) -> bool {
    c == ' ' || c == '\t' || c == '\n' || c == '\r' || c == '\u{b}' || c == '\u{c}'
}

/// ASCII lowercase of one character; anything but 'A'..'Z' is unchanged.
pub open spec fn lower_char(c: char) -> char {
    if 'A' <= c && c <= 'Z' {
        (((c as u8) + 32) as u8) as char
    } else {
        c
    }
}

/// ASCII lowercase, character by character.
pub open spec fn lower(s: Seq<char>) -> Seq<char> {
    s.map_values(|c: char| lower_char(c))
}

/// `pat` occurs in `s` starting exactly at `i`.
pub open spec fn match_at(s: Seq<char>, pat: Seq<char>, i: int) -> bool {
    0 <= i && i + pat.len() <= s.len() && s.subrange(i, i + pat.len()) =~= pat
}

/// The first index `j >= i` where `pat` occurs in `s`, if any.
pub open spec fn find_from(s: Seq<char>, pat: Seq<char>, i: int) -> Option<int>
    decreases s.len() - i,
{
    if i < 0 || i + pat.len() > s.len() {
        None
    } else if match_at(s, pat, i) {
        Some(i)
    } else {
        find_from(s, pat, i + 1)
    }
}

/// A found occurrence lies within the text, at or after the start of the search.
pub proof fn lemma_find_from_in_range(s: Seq<char>, pat: Seq<char>, i: int, j: int)
    requires
        find_from(s, pat, i) == Some(j),
    ensures
        i <= j,
        j + pat.len() <= s.len(),
        match_at(s, pat, j),
    decreases s.len() - i,
{
    if !(i < 0 || i + pat.len() > s.len()) && !match_at(s, pat, i) {
        lemma_find_from_in_range(s, pat, i + 1, j);
    }
}

pub fn is_space_exec(c: char) -> (r: bool)
    ensures
        r == is_space(c),
{
    c == ' ' || c == '\t' || c == '\n' || c == '\r' || c == '\u{b}' || c == '\u{c}'
}

pub fn lower_char_exec(c: char) -> (r: char)
    ensures
        r == lower_char(c),
{
    if 'A' <= c && c <= 'Z' {
        (((c as u8) + 32) as u8) as char
    } else {
        c
    }
}

/// ASCII-lowercases a character vector.
pub fn lower_exec(v: &Vec<char>) -> (r: Vec<char>)
    ensures
        r@ == lower(v@),
{
    let mut out: Vec<char> = Vec::new();
    let mut i: usize = 0;
    while i < v.len()
        invariant
            i <= v@.len(),
            out@ =~= lower(v@).take(i as int),
        decreases v@.len() - i,
    {
        out.push(lower_char_exec(v[i]));
        i = i + 1;
    }
    assert(lower(v@).take(v@.len() as int) =~= lower(v@));
    out
}

/// Does `pat` occur in `s` exactly at `i`?
pub fn match_at_exec(s: &Vec<char>, pat: &Vec<char>, i: usize) -> (r: bool)
    ensures
        r == match_at(s@, pat@, i as int),
{
    if i > s.len() || pat.len() > s.len() - i {
        return false;
    }
    let n: usize = s.len();
    let mut k: usize = 0;
    while k < pat.len()
        invariant
            0 <= k <= pat@.len(),
            i + pat@.len() <= s@.len() == n,
            forall|m: int| 0 <= m < k ==> s@[i + m] == pat@[m],
        decreases pat@.len() - k,
    {
        if s[i + k] != pat[k] {
            assert(!match_at(s@, pat@, i as int)) by {
                if match_at(s@, pat@, i as int) {
                    assert(s@.subrange(i as int, i + pat@.len())[k as int] == pat@[k as int]);
                }
            }
            return false;
        }
        k = k + 1;
    }
    assert(s@.subrange(i as int, i + pat@.len()) =~= pat@);
    true
}

/// The first occurrence of `pat` in `s` at or after `start`.
pub fn find_from_exec(s: &Vec<char>, pat: &Vec<char>, start: usize) -> (r: Option<usize>)
    ensures
        match r {
            Some(j) => find_from(s@, pat@, start as int) == Some(j as int) && start <= j && j
                + pat@.len() <= s@.len(),
            None => find_from(s@, pat@, start as int) is None,
        },
{
    let n: usize = s.len();
    let m: usize = pat.len();
    if m > n || start > n - m {
        return None;
    }
    let mut i: usize = start;
    while i <= n - m
        invariant
            start <= i,
            m == pat@.len() <= s@.len() == n,
            find_from(s@, pat@, start as int) == find_from(s@, pat@, i as int),
        decreases s@.len() - i,
    {
        if match_at_exec(s, pat, i) {
            return Some(i);
        }
        i = i + 1;
    }
    None
}

/// Copies `s[from..to]` into a fresh vector.
pub fn subrange_exec(s: &Vec<char>, from: usize, to: usize) -> (r: Vec<char>)
    requires
        from <= to <= s@.len(),
    ensures
        r@ == s@.subrange(from as int, to as int),
{
    let mut out: Vec<char> = Vec::new();
    let mut i: usize = from;
    while i < to
        invariant
            from <= i <= to <= s@.len(),
            out@ =~= s@.subrange(from as int, i as int),
        decreases to - i,
    {
        out.push(s[i]);
        i = i + 1;
    }
    out
}

/// Are the two character vectors equal?
pub fn chars_eq(a: &Vec<char>, b: &Vec<char>) -> (r: bool)
    ensures
        r == (a@ =~= b@),
{
    if a.len() != b.len() {
        return false;
    }
    let mut i: usize = 0;
    while i < a.len()
        invariant
            0 <= i <= a@.len(),
            a@.len() == b@.len(),
            forall|m: int| 0 <= m < i ==> a@[m] == b@[m],
        decreases a@.len() - i,
    {
        if a[i] != b[i] {
            return false;
        }
        i = i + 1;
    }
    true
}

/// The first index at or after `i` that does not hold whitespace, or the
/// end of `s`.
pub open spec fn skip_spaces(s: Seq<char>, i: int) -> int
    decreases s.len() - i,
{
    if i < 0 || i >= s.len() {
        i
    } else if is_space(s[i]) {
        skip_spaces(s, i + 1)
    } else {
        i
    }
}

/// Skipping whitespace never moves backwards nor past the end.
pub proof fn lemma_skip_spaces_in_range(s: Seq<char>, i: int)
    requires
        0 <= i <= s.len(),
    ensures
        i <= skip_spaces(s, i) <= s.len(),
    decreases s.len() - i,
{
    if i < s.len() && is_space(s[i]) {
        lemma_skip_spaces_in_range(s, i + 1);
    }
}

/// Advances past whitespace, starting at `i`.
pub fn skip_spaces_exec(s: &Vec<char>, i: usize) -> (r: usize)
    requires
        i <= s@.len(),
    ensures
        r == skip_spaces(s@, i as int),
        i <= r <= s@.len(),
{
    let mut k: usize = i;
    while k < s.len()
        invariant
            i <= k <= s@.len(),
            skip_spaces(s@, i as int) == skip_spaces(s@, k as int),
        decreases s@.len() - k,
    {
        if !is_space_exec(s[k]) {
            return k;
        }
        k = k + 1;
    }
    k
}

/// Left-to-right, non-overlapping replacement of every occurrence of `pat`
/// (non-empty) by `rep` in the suffix of `s` that starts at `i`.
pub open spec fn replace_all_from(s: Seq<char>, pat: Seq<char>, rep: Seq<char>, i: int) -> Seq<
    char,
>
    decreases s.len() - i,
{
    if i < 0 || i >= s.len() {
        Seq::empty()
    } else if pat.len() > 0 && match_at(s, pat, i) {
        rep + replace_all_from(s, pat, rep, i + pat.len())
    } else {
        seq![s[i]] + replace_all_from(s, pat, rep, i + 1)
    }
}

/// Replacement of every occurrence of `pat` by `rep`, as `str::replace` does it.
pub open spec fn replace_all(s: Seq<char>, pat: Seq<char>, rep: Seq<char>) -> Seq<char> {
    replace_all_from(s, pat, rep, 0)
}

/// Replaces every occurrence of `pat` in `s` by `rep`, left to right,
/// without rescanning what was substituted.
pub fn replace_all_exec(s: &Vec<char>, pat: &Vec<char>, rep: &Vec<char>) -> (r: Vec<char>)
    requires
        pat@.len() > 0,
    ensures
        r@ == replace_all(s@, pat@, rep@),
{
    let mut out: Vec<char> = Vec::new();
    let mut i: usize = 0;
    while i < s.len()
        invariant
            0 <= i <= s@.len(),
            pat@.len() > 0,
            replace_all(s@, pat@, rep@) =~= out@ + replace_all_from(s@, pat@, rep@, i as int),
        decreases s@.len() - i,
    {
        if match_at_exec(s, pat, i) {
            push_all(&mut out, rep);
            i = i + pat.len();
        } else {
            out.push(s[i]);
            i = i + 1;
        }
    }
    assert(replace_all_from(s@, pat@, rep@, i as int) =~= Seq::empty());
    assert(out@ + Seq::<char>::empty() =~= out@);
    out
}

/// Appends every character of `src` to `out`.
pub fn push_all(out: &mut Vec<char>, src: &Vec<char>)
    ensures
        final(out)@ == old(out)@ + src@,
{
    let mut k: usize = 0;
    while k < src.len()
        invariant
            0 <= k <= src@.len(),
            out@ =~= old(out)@ + src@.take(k as int),
        decreases src@.len() - k,
    {
        out.push(src[k]);
        k = k + 1;
    }
    assert(out@ =~= old(out)@ + src@);
}

/// Does `s` hold `c` anywhere?
pub fn contains_char(s: &Vec<char>, c: char) -> (r: bool)
    ensures
        r == s@.contains(c),
{
    let mut i: usize = 0;
    while i < s.len()
        invariant
            0 <= i <= s@.len(),
            forall|m: int| 0 <= m < i ==> s@[m] != c,
        decreases s@.len() - i,
    {
        if s[i] == c {
            return true;
        }
        i = i + 1;
    }
    false
}

/// Relies on str::chars: yields exactly the characters of the string in order.
#[verifier::external_body]
pub(crate) fn str_chars(s: &str) -> (r: Vec<char>)
    ensures
        r@ == s@,
{
    s.chars().collect()
}

/// Relies on String::from_iter over chars: builds the string whose characters
/// are exactly those of the vector, in order.
#[verifier::external_body]
pub(crate) fn chars_string(v: &Vec<char>) -> (r: String)
    ensures
        r@ == v@,
{
    v.iter().collect()
}

} // verus!
