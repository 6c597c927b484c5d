//! Character-level helpers over strings: whitespace trimming and substring
//! search, each with a recursive model over `Seq<char>`.
use vstd::prelude::*;

verus! {

/// Unicode `White_Space`, the set that `char::is_whitespace` tests.
pub open spec fn is_ws(c: char) -> bool {
    let u = c as u32;
    (0x9 <= u && u <= 0xd) || u == 0x20 || u == 0x85 || u == 0xa0 || u == 0x1680 || (0x2000 <= u
        && u <= 0x200a) || u == 0x2028 || u == 0x2029 || u == 0x202f || u == 0x205f || u == 0x3000
}

/// A character removed from the end of a string: whitespace, and also the
/// statement terminator `;` when `semis` is set.
pub open spec fn is_strip(c: char, semis: bool) -> bool {
    is_ws(c) || (semis && c == ';')
}

/// The first index at or after `i` that does not hold whitespace.
pub open spec fn skip_ws_from(s: Seq<char>, i: int) -> int
    decreases s.len() - i,
{
    if i < 0 || i >= s.len() {
        s.len() as int
    } else if is_ws(s[i]) {
        skip_ws_from(s, i + 1)
    } else {
        i
    }
}

/// The end of `s[lo..j]` once trailing strip characters are removed.
pub open spec fn end_from(s: Seq<char>, lo: int, j: int, semis: bool) -> int
    decreases j - lo,
{
    if j <= lo {
        lo
    } else if is_strip(s[j - 1], semis) {
        end_from(s, lo, j - 1, semis)
    } else {
        j
    }
}

/// `s` without leading and trailing whitespace, as `str::trim` gives it.
pub open spec fn trim(s: Seq<char>) -> Seq<char> {
    let a = skip_ws_from(s, 0);
    s.subrange(a, end_from(s, a, s.len() as int, false))
}

/// `s` without leading whitespace and without trailing whitespace or `;`.
pub open spec fn clean(s: Seq<char>) -> Seq<char> {
    let a = skip_ws_from(s, 0);
    s.subrange(a, end_from(s, a, s.len() as int, true))
}

/// `p` occurs in `s` starting at index `i`.
pub open spec fn matches_at(s: Seq<char>, p: Seq<char>, i: int) -> bool {
    0 <= i && i + p.len() <= s.len() && s.subrange(i, i + p.len()) == p
}

/// The first occurrence of `p` in `s` at or after `i`.
pub open spec fn find_from(s: Seq<char>, p: Seq<char>, i: int) -> Option<int>
    decreases s.len() + 1 - i,
{
    if i < 0 || i + p.len() > s.len() {
        None
    } else if matches_at(s, p, i) {
        Some(i)
    } else {
        find_from(s, p, i + 1)
    }
}

/// An optional index, as an optional integer.
pub open spec fn as_pos(o: Option<usize>) -> Option<int> {
    match o {
        Some(k) => Some(k as int),
        None => None,
    }
}

/// The first occurrence of `p` in `s`.
pub open spec fn find(s: Seq<char>, p: Seq<char>) -> Option<int> {
    find_from(s, p, 0)
}

pub proof fn lemma_skip_ws(s: Seq<char>, i: int)
    requires
        0 <= i <= s.len(),
    ensures
        i <= skip_ws_from(s, i) <= s.len(),
        skip_ws_from(s, i) < s.len() ==> !is_ws(s[skip_ws_from(s, i)]),
        forall|k: int| i <= k < skip_ws_from(s, i) ==> is_ws(#[trigger] s[k]),
    decreases s.len() - i,
{
    if i < s.len() && is_ws(s[i]) {
        lemma_skip_ws(s, i + 1);
    }
}

pub proof fn lemma_end_from(s: Seq<char>, lo: int, j: int, semis: bool)
    requires
        0 <= lo <= j <= s.len(),
    ensures
        lo <= end_from(s, lo, j, semis) <= j,
        end_from(s, lo, j, semis) > lo ==> !is_strip(s[end_from(s, lo, j, semis) - 1], semis),
        forall|k: int| lo <= k < j && !is_strip(#[trigger] s[k], semis) ==> k < end_from(s, lo, j, semis),
    decreases j - lo,
{
    if j > lo && is_strip(s[j - 1], semis) {
        lemma_end_from(s, lo, j - 1, semis);
    }
}

pub proof fn lemma_find_from(s: Seq<char>, p: Seq<char>, i: int)
    requires
        0 <= i,
    ensures
        match find_from(s, p, i) {
            Some(k) => i <= k && matches_at(s, p, k) && forall|j: int|
                i <= j < k ==> !#[trigger] matches_at(s, p, j),
            None => forall|j: int| i <= j ==> !#[trigger] matches_at(s, p, j),
        },
    decreases s.len() + 1 - i,
{
    if i + p.len() <= s.len() && !matches_at(s, p, i) {
        lemma_find_from(s, p, i + 1);
    }
}

/// The characters of a string, one per element.
pub fn to_chars(s: &str) -> (r: Vec<char>)
    ensures
        r@ == s@,
{
    let n = s.unicode_len();
    let mut r: Vec<char> = Vec::new();
    let mut i: usize = 0;
    while i < n
        invariant
            n == s@.len(),
            i <= n,
            r@ == s@.subrange(0, i as int),
        decreases n - i,
    {
        r.push(s.get_char(i));
        i = i + 1;
    }
    assert(r@ == s@);
    r
}

/// Index of the first non-whitespace character at or after `i`.
pub fn skip_ws(v: &Vec<char>, i: usize) -> (r: usize)
    requires
        i <= v@.len(),
    ensures
        r as int == skip_ws_from(v@, i as int),
{
    let mut k = i;
    while k < v.len() && is_whitespace(v[k])
        invariant
            i <= k <= v@.len(),
            skip_ws_from(v@, k as int) == skip_ws_from(v@, i as int),
        decreases v@.len() - k,
    {
        k = k + 1;
    }
    k
}

/// End of `v[lo..hi]` with trailing strip characters removed.
pub fn strip_end(v: &Vec<char>, lo: usize, hi: usize, semis: bool) -> (r: usize)
    requires
        lo <= hi <= v@.len(),
    ensures
        r as int == end_from(v@, lo as int, hi as int, semis),
{
    let mut j = hi;
    while j > lo && (is_whitespace(v[j - 1]) || (semis && v[j - 1] == ';'))
        invariant
            lo <= j <= hi,
            hi <= v@.len(),
            end_from(v@, lo as int, j as int, semis) == end_from(v@, lo as int, hi as int, semis),
        decreases j,
    {
        j = j - 1;
    }
    j
}

/// Whether `c` is Unicode whitespace.
pub fn is_whitespace(c: char) -> (r: bool)
    ensures
        r == is_ws(c),
{
    let u = c as u32;
    (0x9 <= u && u <= 0xd) || u == 0x20 || u == 0x85 || u == 0xa0 || u == 0x1680 || (0x2000 <= u
        && u <= 0x200a) || u == 0x2028 || u == 0x2029 || u == 0x202f || u == 0x205f || u == 0x3000
}

/// Whether `p` occurs in `v` at index `i`.
pub fn occurs_at(v: &Vec<char>, p: &Vec<char>, i: usize) -> (r: bool)
    ensures
        r == matches_at(v@, p@, i as int),
{
    if p.len() > v.len() || i > v.len() - p.len() {
        return false;
    }
    let mut k: usize = 0;
    while k < p.len()
        invariant
            i + p@.len() <= v@.len(),
            k <= p@.len(),
            i + p@.len() <= usize::MAX,
            forall|m: int| 0 <= m < k ==> v@[i + m] == p@[m],
        decreases p@.len() - k,
    {
        if v[i + k] != p[k] {
            return false;
        }
        k = k + 1;
    }
    assert(v@.subrange(i as int, i + p@.len()) =~= p@);
    true
}

/// The first occurrence of `p` in `v` at or after `i`.
pub fn find_exec(v: &Vec<char>, p: &Vec<char>, i: usize) -> (r: Option<usize>)
    ensures
        as_pos(r) == find_from(v@, p@, i as int),
        r matches Some(k) ==> k <= v@.len(),
{
    if p.len() > v.len() || i > v.len() - p.len() {
        assert(find_from(v@, p@, i as int) == None::<int>);
        return None;
    }
    let last = v.len() - p.len();
    let mut k = i;
    while k <= last
        invariant
            last + p@.len() == v@.len(),
            i <= k,
            k <= last + 1,
            find_from(v@, p@, k as int) == find_from(v@, p@, i as int),
        decreases last + 1 - k,
    {
        if occurs_at(v, p, k) {
            return Some(k);
        }
        if k == last {
            assert(find_from(v@, p@, k + 1) is None);
            return None;
        }
        k = k + 1;
    }
    None
}

/// `s` with surrounding whitespace removed.
pub fn trim_str(s: &str) -> (r: &str)
    ensures
        r@ == trim(s@),
{
    let v = to_chars(s);
    let a = skip_ws(&v, 0);
    proof {
        lemma_skip_ws(v@, 0);
    }
    let b = strip_end(&v, a, v.len(), false);
    proof {
        lemma_end_from(v@, a as int, v@.len() as int, false);
    }
    s.substring_char(a, b)
}

/// `s` with leading whitespace and trailing whitespace or `;` removed.
pub fn clean_str(s: &str) -> (r: String)
    ensures
        r@ == clean(s@),
{
    let v = to_chars(s);
    let a = skip_ws(&v, 0);
    proof {
        lemma_skip_ws(v@, 0);
    }
    let b = strip_end(&v, a, v.len(), true);
    proof {
        lemma_end_from(v@, a as int, v@.len() as int, true);
    }
    String::from_str(s.substring_char(a, b))
}

} // verus!
