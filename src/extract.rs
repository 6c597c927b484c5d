//! Recovery of one executable SQL statement from free-form model output.
use vstd::prelude::*;
use crate::text::{as_pos, is_whitespace, end_from, is_strip, is_ws, lemma_end_from, lemma_skip_ws, skip_ws_from, clean, clean_str, find, find_exec, find_from, lemma_find_from, matches_at, occurs_at, to_chars, trim, trim_str};

verus! {

/// The fence that opens and closes a code block.
pub open spec fn fence() -> Seq<char> {
    "```"@
}

/// The marker after which a model echoes commentary.
pub open spec fn response_marker() -> Seq<char> {
    "Response :"@
}

/// The earlier of two optional positions.
pub open spec fn earliest(a: Option<int>, b: Option<int>) -> Option<int> {
    match (a, b) {
        (Some(x), Some(y)) => Some(if x <= y { x } else { y }),
        (Some(x), None) => Some(x),
        (None, _) => b,
    }
}

/// The first position at which one of the verbs `SELECT`, `INSERT`,
/// `UPDATE`, `DELETE` starts.
pub open spec fn first_verb(s: Seq<char>) -> Option<int> {
    earliest(
        earliest(find(s, "SELECT"@), find(s, "INSERT"@)),
        earliest(find(s, "UPDATE"@), find(s, "DELETE"@)),
    )
}

/// The rest of an opening fence's line is an info string (a language tag
/// such as `sql` or `SQLite`) when, trimmed, it is one word without
/// backticks.
pub open spec fn is_info_word(x: Seq<char>) -> bool {
    forall|i: int| 0 <= i < trim(x).len() ==> !is_ws(#[trigger] trim(x)[i]) && trim(x)[i] != '`'
}

/// Where the body of a block opened by the fence at `o` starts: after the
/// line break that ends the fence's line when the rest of that line is an
/// info string, else right after the fence.
pub open spec fn body_start(s: Seq<char>, o: int) -> int {
    match find_from(s, "\n"@, o + 3) {
        Some(nl) => if is_info_word(s.subrange(o + 3, nl)) {
            nl + 1
        } else {
            o + 3
        },
        None => o + 3,
    }
}

/// The bounds of the body of the first closed code block of `s`.
pub open spec fn fenced(s: Seq<char>) -> Option<(int, int)> {
    match find(s, fence()) {
        Some(o) => match find_from(s, fence(), body_start(s, o)) {
            Some(c) => Some((body_start(s, o), c)),
            None => None,
        },
        None => None,
    }
}

/// `u` up to the first response marker, or all of it.
pub open spec fn cut_commentary(u: Seq<char>) -> Seq<char> {
    match find(u, response_marker()) {
        Some(r) => u.subrange(0, r),
        None => u,
    }
}

/// The statement recovered from a raw response: the cleaned body of the
/// first closed code block; else the cleaned text from the first verb up to
/// a response marker; else the trimmed response itself.
pub open spec fn extracted(s: Seq<char>) -> Seq<char> {
    let t = trim(s);
    match fenced(t) {
        Some((a, c)) => clean(t.subrange(a, c)),
        None => match first_verb(t) {
            Some(v) => clean(cut_commentary(t.subrange(v, t.len() as int))),
            None => t,
        },
    }
}

/// A string without an occurrence of `p` has none in any part of it.
pub proof fn lemma_absent_in_part(s: Seq<char>, p: Seq<char>, a: int, b: int)
    requires
        find(s, p) is None,
        0 <= a <= b <= s.len(),
    ensures
        find(s.subrange(a, b), p) is None,
{
    let t = s.subrange(a, b);
    lemma_find_from(s, p, 0);
    lemma_find_from(t, p, 0);
    if let Some(k) = find(t, p) {
        assert(s.subrange(a + k, a + k + p.len()) =~= t.subrange(k, k + p.len()));
        assert(matches_at(s, p, a + k));
    }
}

/// Text that starts with a non-space and ends with a non-space is its own
/// trim; if it also does not end in `;`, it is its own cleaned form.
pub proof fn lemma_trimmed_fixed(t: Seq<char>)
    requires
        t.len() > 0 ==> !is_ws(t[0]) && !is_ws(t.last()),
    ensures
        trim(t) == t,
        t.len() > 0 && !is_strip(t.last(), true) ==> clean(t) == t,
{
    assert(skip_ws_from(t, 0) == 0);
    if t.len() > 0 {
        assert(end_from(t, 0, t.len() as int, false) == t.len());
        if !is_strip(t.last(), true) {
            assert(end_from(t, 0, t.len() as int, true) == t.len());
        }
    }
    assert(t.subrange(0, t.len() as int) =~= t);
}

/// The trim of any text starts and ends with a non-space.
pub proof fn lemma_trim_shape(s: Seq<char>)
    ensures
        trim(s).len() > 0 ==> !is_ws(trim(s)[0]) && !is_ws(trim(s).last()),
{
    lemma_skip_ws(s, 0);
    let a = skip_ws_from(s, 0);
    lemma_end_from(s, a, s.len() as int, false);
}

proof fn lemma_verb_part(t: Seq<char>, w: Seq<char>, v: int)
    requires
        matches_at(t, w, v),
        w.len() == 6,
        !is_ws(w[0]),
        !is_strip(w[5], true),
        find(t, fence()) is None,
        find(t, response_marker()) is None,
    ensures
        ({
            let r = clean(cut_commentary(t.subrange(v, t.len() as int)));
            &&& r.len() >= 6
            &&& r.subrange(0, 6) == w
            &&& !is_ws(r[0])
            &&& !is_strip(r.last(), true)
            &&& find(r, fence()) is None
            &&& find(r, response_marker()) is None
        }),
{
    let u = t.subrange(v, t.len() as int);
    lemma_absent_in_part(t, response_marker(), v, t.len() as int);
    assert(cut_commentary(u) == u);
    assert(u[0] == w[0]);
    assert(skip_ws_from(u, 0) == 0);
    lemma_end_from(u, 0, u.len() as int, true);
    assert(u[5] == w[5]);
    let e = end_from(u, 0, u.len() as int, true);
    assert(e >= 6);
    let r = u.subrange(0, e);
    assert(r == clean(u));
    assert(r.subrange(0, 6) =~= w);
    lemma_absent_in_part(t, fence(), v, t.len() as int);
    lemma_absent_in_part(u, fence(), 0, e);
    lemma_absent_in_part(u, response_marker(), 0, e);
}

/// Extraction is idempotent on text that holds neither a code fence nor a
/// response marker: extracting from what was extracted changes nothing.
pub proof fn lemma_extract_idempotent(s: Seq<char>)
    requires
        find(s, fence()) is None,
        find(s, response_marker()) is None,
    ensures
        extracted(extracted(s)) == extracted(s),
{
    let a = skip_ws_from(s, 0);
    lemma_skip_ws(s, 0);
    lemma_end_from(s, a, s.len() as int, false);
    let t = trim(s);
    lemma_absent_in_part(s, fence(), a, end_from(s, a, s.len() as int, false));
    lemma_absent_in_part(s, response_marker(), a, end_from(s, a, s.len() as int, false));
    lemma_trim_shape(s);
    assert(fenced(t) is None);
    match first_verb(t) {
        None => {
            lemma_trimmed_fixed(t);
        },
        Some(v) => {
            reveal_strlit("SELECT");
            reveal_strlit("INSERT");
            reveal_strlit("UPDATE");
            reveal_strlit("DELETE");
            lemma_find_from(t, "SELECT"@, 0);
            lemma_find_from(t, "INSERT"@, 0);
            lemma_find_from(t, "UPDATE"@, 0);
            lemma_find_from(t, "DELETE"@, 0);
            let w = if find(t, "SELECT"@) == Some(v) {
                "SELECT"@
            } else if find(t, "INSERT"@) == Some(v) {
                "INSERT"@
            } else if find(t, "UPDATE"@) == Some(v) {
                "UPDATE"@
            } else {
                "DELETE"@
            };
            assert(matches_at(t, w, v));
            lemma_verb_part(t, w, v);
            let r = clean(cut_commentary(t.subrange(v, t.len() as int)));
            assert(extracted(s) == r);
            lemma_trimmed_fixed(r);
            assert(fenced(r) is None);
            assert(matches_at(r, w, 0));
            lemma_find_from(r, "SELECT"@, 0);
            lemma_find_from(r, "INSERT"@, 0);
            lemma_find_from(r, "UPDATE"@, 0);
            lemma_find_from(r, "DELETE"@, 0);
            assert(find(r, w) == Some(0int));
            assert(first_verb(r) == Some(0int));
            assert(r.subrange(0, r.len() as int) =~= r);
            assert(cut_commentary(r) == r);
        },
    }
}

/// Text with no code fence and none of the four verbs comes back trimmed
/// and otherwise unchanged.
pub proof fn lemma_passthrough(s: Seq<char>)
    requires
        find(s, fence()) is None,
        find(s, "SELECT"@) is None,
        find(s, "INSERT"@) is None,
        find(s, "UPDATE"@) is None,
        find(s, "DELETE"@) is None,
    ensures
        extracted(s) == trim(s),
{
    let a = skip_ws_from(s, 0);
    lemma_skip_ws(s, 0);
    lemma_end_from(s, a, s.len() as int, false);
    let b = end_from(s, a, s.len() as int, false);
    lemma_absent_in_part(s, fence(), a, b);
    lemma_absent_in_part(s, "SELECT"@, a, b);
    lemma_absent_in_part(s, "INSERT"@, a, b);
    lemma_absent_in_part(s, "UPDATE"@, a, b);
    lemma_absent_in_part(s, "DELETE"@, a, b);
}

fn earliest_exec(a: Option<usize>, b: Option<usize>) -> (r: Option<usize>)
    ensures
        as_pos(r) == earliest(as_pos(a), as_pos(b)),
{
    match (a, b) {
        (Some(x), Some(y)) => Some(if x <= y { x } else { y }),
        (Some(x), None) => Some(x),
        (None, _) => b,
    }
}

/// Whether the rest of a fence's line is an info string.
fn info_word(x: &str) -> (r: bool)
    ensures
        r == is_info_word(x@),
{
    let w = to_chars(trim_str(x));
    let mut i: usize = 0;
    while i < w.len()
        invariant
            w@ == trim(x@),
            i <= w@.len(),
            forall|k: int| 0 <= k < i ==> !is_ws(#[trigger] w@[k]) && w@[k] != '`',
        decreases w@.len() - i,
    {
        if is_whitespace(w[i]) || w[i] == '`' {
            return false;
        }
        i = i + 1;
    }
    true
}

/// Namespace of the database-side text utilities.
pub struct DbUtill;

impl DbUtill {
    /// Reduces a raw model response to a single SQL statement. Never fails:
    /// with neither a code block nor a verb, the trimmed response comes back.
    pub fn extract_sql(response: &str) -> (r: String)
        ensures
            r@ == extracted(response@),
    {
        let ts = trim_str(response);
        let t = to_chars(ts);
        let fence_v = to_chars("```");
        proof {
            lemma_find_from(t@, fence(), 0);
            reveal_strlit("```");
            reveal_strlit("\n");
        }
        if let Some(o) = find_exec(&t, &fence_v, 0) {
            let n = t.len();
            assert(matches_at(t@, fence(), o as int));
            let a = match find_exec(&t, &to_chars("\n"), o + 3) {
                Some(nl) => {
                    proof {
                        lemma_find_from(t@, "\n"@, o + 3);
                    }
                    if info_word(ts.substring_char(o + 3, nl)) {
                        nl + 1
                    } else {
                        o + 3
                    }
                },
                None => o + 3,
            };
            if a <= t.len() {
                if let Some(c) = find_exec(&t, &fence_v, a) {
                    proof {
                        lemma_find_from(t@, fence(), a as int);
                    }
                    return clean_str(ts.substring_char(a, c));
                }
            } else {
                assert(find_from(t@, fence(), a as int) is None);
            }
        }
        let s1 = find_exec(&t, &to_chars("SELECT"), 0);
        let s2 = find_exec(&t, &to_chars("INSERT"), 0);
        let s3 = find_exec(&t, &to_chars("UPDATE"), 0);
        let s4 = find_exec(&t, &to_chars("DELETE"), 0);
        let verb = earliest_exec(earliest_exec(s1, s2), earliest_exec(s3, s4));
        match verb {
            Some(v) => {
                let u = ts.substring_char(v, t.len());
                let uv = to_chars(u);
                let marker = to_chars("Response :");
                match find_exec(&uv, &marker, 0) {
                    Some(m) => clean_str(u.substring_char(0, m)),
                    None => clean_str(u),
                }
            },
            None => String::from_str(ts),
        }
    }
}

} // verus!
