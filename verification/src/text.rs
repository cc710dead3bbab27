//! Character-level text utilities used by the DDL extractor: conversions
//! between strings and character vectors, whitespace normalization, and
//! substring search/replacement, each verified against a spec function.

use vstd::prelude::*;
use vstd::string::StrSliceExecFns;

verus! {

// ---------------------------------------------------------------------------
// Conversions between `str`/`String` and `Vec<char>`
// ---------------------------------------------------------------------------

/// Collect the characters of a string into a vector, in order.
pub fn str_to_chars(s: &str) -> (r: Vec<char>)
    ensures
        r@ == s@,
{
    let n = s.unicode_len();
    let mut r: Vec<char> = Vec::new();
    let mut i: usize = 0;
    while i < n
        invariant
            n == s@.len(),
            i <= n,
            r@ == s@.subrange(0, i as int),
        decreases n - i,
    {
        r.push(s.get_char(i));
        i = i + 1;
        proof {
            assert(r@ =~= s@.subrange(0, i as int));
        }
    }
    proof {
        assert(r@ =~= s@);
    }
    r
}

/// Relies on std's `FromIterator<char> for String` (via `collect`): collecting
/// an iterator of characters builds the string of exactly those characters,
/// in order.
#[verifier::external_body]
pub fn chars_to_string(v: &Vec<char>) -> (r: String)
    ensures
        r@ == v@,
{
    v.iter().collect()
}

// ---------------------------------------------------------------------------
// Collapsing runs of spaces
// ---------------------------------------------------------------------------

/// The space-collapsing transform: a character is kept unless it is a space
/// immediately preceded by another space, so interior runs of spaces shrink
/// to a single space.
pub open spec fn collapse_spaces_spec(s: Seq<char>) -> Seq<char>
    decreases s.len(),
{
    if s.len() <= 1 {
        s
    } else if s[s.len() - 1] == ' ' && s[s.len() - 2] == ' ' {
        collapse_spaces_spec(s.drop_last())
    } else {
        collapse_spaces_spec(s.drop_last()).push(s.last())
    }
}

/// No two adjacent characters are both spaces.
pub open spec fn no_double_space(s: Seq<char>) -> bool {
    forall|i: int| 1 <= i < s.len() ==> !(#[trigger] s[i] == ' ' && s[i - 1] == ' ')
}

/// A non-empty input collapses to a non-empty output, and the output ends in
/// a space only if the input does.
proof fn lemma_collapse_last(s: Seq<char>)
    requires
        s.len() > 0,
    ensures
        collapse_spaces_spec(s).len() > 0,
        collapse_spaces_spec(s).last() == ' ' ==> s.last() == ' ',
    decreases s.len(),
{
    if s.len() <= 1 {
    } else if s[s.len() - 1] == ' ' && s[s.len() - 2] == ' ' {
        lemma_collapse_last(s.drop_last());
    } else {
        lemma_collapse_last(s.drop_last());
    }
}

/// The collapsed text never holds two adjacent spaces.
pub proof fn lemma_collapse_no_double_space(s: Seq<char>)
    ensures
        no_double_space(collapse_spaces_spec(s)),
    decreases s.len(),
{
    if s.len() <= 1 {
    } else if s[s.len() - 1] == ' ' && s[s.len() - 2] == ' ' {
        lemma_collapse_no_double_space(s.drop_last());
    } else {
        let x = s.drop_last();
        lemma_collapse_no_double_space(x);
        let cx = collapse_spaces_spec(x);
        let c = s.last();
        assert(collapse_spaces_spec(s) == cx.push(c));
        if c == ' ' {
            // since the last two of s are not both spaces, x ends in a non-space
            assert(x.last() == s[s.len() - 2]);
            lemma_collapse_last(x);
            assert(cx.last() != ' ');
        }
        assert forall|i: int| 1 <= i < cx.push(c).len() implies !(#[trigger] cx.push(c)[i] == ' '
            && cx.push(c)[i - 1] == ' ') by {
            if i < cx.len() {
                assert(cx.push(c)[i] == cx[i] && cx.push(c)[i - 1] == cx[i - 1]);
            } else {
                assert(cx.push(c)[i] == c);
                if cx.len() > 0 {
                    assert(cx.push(c)[i - 1] == cx.last());
                }
            }
        }
    }
}

/// Text with no adjacent spaces is a fixed point of the transform.
pub proof fn lemma_collapse_fixed_point(s: Seq<char>)
    requires
        no_double_space(s),
    ensures
        collapse_spaces_spec(s) == s,
    decreases s.len(),
{
    if s.len() <= 1 {
    } else {
        assert(!(s[s.len() - 1] == ' ' && s[s.len() - 2] == ' '));
        let x = s.drop_last();
        assert(no_double_space(x)) by {
            assert(forall|i: int| 1 <= i < x.len() ==> #[trigger] x[i] == s[i] && x[i - 1] == s[i
                - 1]);
        }
        lemma_collapse_fixed_point(x);
        assert(collapse_spaces_spec(s) =~= s);
    }
}

/// Law: the space-collapsing transform is idempotent; collapsing twice
/// yields the same text as collapsing once.
pub proof fn lemma_collapse_idempotent(s: Seq<char>)
    ensures
        collapse_spaces_spec(collapse_spaces_spec(s)) == collapse_spaces_spec(s),
{
    lemma_collapse_no_double_space(s);
    lemma_collapse_fixed_point(collapse_spaces_spec(s));
}

/// Collapse runs of spaces in a character vector, keeping every character
/// that is not a space directly preceded by a space.
pub fn collapse_spaces_chars(v: &Vec<char>) -> (r: Vec<char>)
    ensures
        r@ == collapse_spaces_spec(v@),
{
    let mut r: Vec<char> = Vec::new();
    let mut i: usize = 0;
    while i < v.len()
        invariant
            i <= v@.len(),
            r@ == collapse_spaces_spec(v@.subrange(0, i as int)),
        decreases v@.len() - i,
    {
        let c = v[i];
        if !(c == ' ' && i > 0 && v[i - 1] == ' ') {
            r.push(c);
        }
        i = i + 1;
        proof {
            let t = v@.subrange(0, i as int);
            assert(t.drop_last() =~= v@.subrange(0, i - 1));
            assert(t.last() == v@[i - 1]);
            if i >= 2 {
                assert(t[t.len() - 2] == v@[i - 2]);
            }
        }
    }
    proof {
        assert(v@.subrange(0, v@.len() as int) =~= v@);
    }
    r
}

// ---------------------------------------------------------------------------
// Stripping newline and tab characters
// ---------------------------------------------------------------------------

/// Characters that survive the pre-collapse cleanup of a raw dump.
pub open spec fn is_kept_char(c: char) -> bool {
    c != '\n' && c != '\t'
}

/// The input with every newline and tab character removed.
pub open spec fn strip_ctl_spec(s: Seq<char>) -> Seq<char>
    decreases s.len(),
{
    if s.len() == 0 {
        s
    } else if is_kept_char(s.last()) {
        strip_ctl_spec(s.drop_last()).push(s.last())
    } else {
        strip_ctl_spec(s.drop_last())
    }
}

/// Remove every newline and tab character from a character vector.
pub fn strip_ctl_chars(v: &Vec<char>) -> (r: Vec<char>)
    ensures
        r@ == strip_ctl_spec(v@),
{
    let mut r: Vec<char> = Vec::new();
    let mut i: usize = 0;
    while i < v.len()
        invariant
            i <= v@.len(),
            r@ == strip_ctl_spec(v@.subrange(0, i as int)),
        decreases v@.len() - i,
    {
        let c = v[i];
        if c != '\n' && c != '\t' {
            r.push(c);
        }
        i = i + 1;
        proof {
            let t = v@.subrange(0, i as int);
            assert(t.drop_last() =~= v@.subrange(0, i - 1));
            assert(t.last() == v@[i - 1]);
        }
    }
    proof {
        assert(v@.subrange(0, v@.len() as int) =~= v@);
    }
    r
}

// ---------------------------------------------------------------------------
// Substring search
// ---------------------------------------------------------------------------

/// The pattern `pat` occurs in `s` starting at position `i`.
pub open spec fn occurs_at(s: Seq<char>, pat: Seq<char>, i: int) -> bool {
    0 <= i && i + pat.len() <= s.len() && s.subrange(i, i + pat.len() as int) == pat
}

/// The position of the leftmost occurrence of `pat` in `s` at or after
/// `from`, if any.
pub open spec fn first_match_from(s: Seq<char>, pat: Seq<char>, from: int) -> Option<int>
    decreases s.len() + 1 - from,
{
    if from + pat.len() > s.len() {
        None
    } else if occurs_at(s, pat, from) {
        Some(from)
    } else {
        first_match_from(s, pat, from + 1)
    }
}

/// What `first_match_from` returns: the first occurrence at or after `from`,
/// or `None` when there is none.
pub proof fn lemma_first_match_from_properties(s: Seq<char>, pat: Seq<char>, from: int)
    ensures
        match first_match_from(s, pat, from) {
            Some(i) => from <= i && occurs_at(s, pat, i) && forall|j: int|
                from <= j < i ==> !occurs_at(s, pat, j),
            None => forall|j: int| from <= j ==> !occurs_at(s, pat, j),
        },
    decreases s.len() + 1 - from,
{
    if from + pat.len() > s.len() {
    } else if occurs_at(s, pat, from) {
    } else {
        lemma_first_match_from_properties(s, pat, from + 1);
    }
}

/// `first_match_from` is pinned down by the first-occurrence description.
pub proof fn lemma_first_match_from_unique(s: Seq<char>, pat: Seq<char>, from: int, i: int)
    requires
        from <= i,
        occurs_at(s, pat, i),
        forall|j: int| from <= j < i ==> !occurs_at(s, pat, j),
    ensures
        first_match_from(s, pat, from) == Some(i),
    decreases i - from,
{
    if from == i {
    } else {
        lemma_first_match_from_unique(s, pat, from + 1, i);
    }
}

/// Searching `s` from `base` finds the same occurrence as searching the
/// suffix of `s` that starts at `base`, shifted by `base`.
pub proof fn lemma_first_match_shift(s: Seq<char>, pat: Seq<char>, base: int)
    requires
        0 <= base <= s.len(),
    ensures
        first_match_from(s, pat, base) == match first_match_from(
            s.subrange(base, s.len() as int),
            pat,
            0,
        ) {
            Some(k) => Some(base + k),
            None => None::<int>,
        },
{
    let suf = s.subrange(base, s.len() as int);
    assert forall|k: int| 0 <= k implies #[trigger] occurs_at(suf, pat, k) == occurs_at(
        s,
        pat,
        base + k,
    ) by {
        if k + pat.len() <= suf.len() {
            assert(suf.subrange(k, k + pat.len() as int) =~= s.subrange(
                base + k,
                base + k + pat.len() as int,
            ));
        }
    }
    lemma_first_match_from_properties(suf, pat, 0);
    match first_match_from(suf, pat, 0) {
        Some(k) => {
            assert forall|j: int| base <= j < base + k implies !occurs_at(s, pat, j) by {
                assert(!occurs_at(suf, pat, j - base));
                assert(occurs_at(suf, pat, j - base) == occurs_at(s, pat, base + (j - base)));
            }
            assert(occurs_at(suf, pat, k) == occurs_at(s, pat, base + k));
            lemma_first_match_from_unique(s, pat, base, base + k);
        },
        None => {
            lemma_first_match_from_properties(s, pat, base);
            if first_match_from(s, pat, base) is Some {
                let i = first_match_from(s, pat, base)->Some_0;
                assert(occurs_at(suf, pat, i - base) == occurs_at(s, pat, base + (i - base)));
                assert(occurs_at(suf, pat, i - base));
            }
        },
    }
}

/// Whether `pat` occurs in `v` at position `i`.
pub fn is_match_at(v: &Vec<char>, pat: &Vec<char>, i: usize) -> (b: bool)
    requires
        pat@.len() <= v@.len(),
        i <= v@.len() - pat@.len(),
    ensures
        b == occurs_at(v@, pat@, i as int),
{
    let vlen = v.len();
    let mut j: usize = 0;
    while j < pat.len()
        invariant
            pat@.len() <= v@.len(),
            i <= v@.len() - pat@.len(),
            vlen == v@.len(),
            j <= pat@.len(),
            forall|k: int| 0 <= k < j ==> v@[i + k] == pat@[k],
        decreases pat@.len() - j,
    {
        if v[i + j] != pat[j] {
            proof {
                assert(v@.subrange(i as int, i + pat@.len() as int)[j as int] != pat@[j as int]);
            }
            return false;
        }
        j = j + 1;
    }
    proof {
        assert(v@.subrange(i as int, i + pat@.len() as int) =~= pat@);
    }
    true
}

/// Find the leftmost occurrence of `pat` in `v` at or after `from`.
pub fn find_from(v: &Vec<char>, pat: &Vec<char>, from: usize) -> (r: Option<usize>)
    requires
        pat@.len() >= 1,
    ensures
        match r {
            Some(i) => first_match_from(v@, pat@, from as int) == Some(i as int),
            None => first_match_from(v@, pat@, from as int) is None,
        },
{
    if pat.len() > v.len() {
        proof {
            lemma_first_match_from_properties(v@, pat@, from as int);
            if first_match_from(v@, pat@, from as int) is Some {
                let i = first_match_from(v@, pat@, from as int)->Some_0;
                assert(occurs_at(v@, pat@, i));
            }
        }
        return None;
    }
    let last_start: usize = v.len() - pat.len();
    let mut i: usize = from;
    while i <= last_start
        invariant
            pat@.len() >= 1,
            pat@.len() <= v@.len(),
            last_start == v@.len() - pat@.len(),
            last_start < usize::MAX,
            first_match_from(v@, pat@, from as int) == first_match_from(v@, pat@, i as int),
        decreases last_start + 1 - i,
    {
        if is_match_at(v, pat, i) {
            return Some(i);
        }
        i = i + 1;
    }
    proof {
        assert(i + pat@.len() > v@.len());
    }
    None
}

// ---------------------------------------------------------------------------
// Replacing every occurrence of a pattern
// ---------------------------------------------------------------------------

/// The text with every occurrence of `pat` replaced by `repl`, scanning left
/// to right over non-overlapping occurrences.
pub open spec fn replace_all_spec(s: Seq<char>, pat: Seq<char>, repl: Seq<char>) -> Seq<char>
    decreases s.len(),
    when pat.len() >= 1
    via replace_all_spec_dec
{
    match first_match_from(s, pat, 0) {
        None => s,
        Some(i) => s.subrange(0, i) + repl + replace_all_spec(
            s.subrange(i + pat.len() as int, s.len() as int),
            pat,
            repl,
        ),
    }
}

#[via_fn]
proof fn replace_all_spec_dec(s: Seq<char>, pat: Seq<char>, repl: Seq<char>) {
    lemma_first_match_from_properties(s, pat, 0);
}

/// Append the characters `v[from..to]` to `out`.
fn push_range(out: &mut Vec<char>, v: &Vec<char>, from: usize, to: usize)
    requires
        from <= to <= v@.len(),
    ensures
        final(out)@ == old(out)@ + v@.subrange(from as int, to as int),
{
    let mut k: usize = from;
    while k < to
        invariant
            from <= k <= to <= v@.len(),
            out@ == old(out)@ + v@.subrange(from as int, k as int),
        decreases to - k,
    {
        out.push(v[k]);
        k = k + 1;
        proof {
            assert(old(out)@ + v@.subrange(from as int, k as int) =~= (old(out)@ + v@.subrange(
                from as int,
                k - 1,
            )).push(v@[k - 1]));
        }
    }
}

/// Replace every occurrence of `pat` in `v` by `repl`, left to right.
pub fn replace_all(v: &Vec<char>, pat: &Vec<char>, repl: &Vec<char>) -> (r: Vec<char>)
    requires
        pat@.len() >= 1,
    ensures
        r@ == replace_all_spec(v@, pat@, repl@),
{
    let vlen = v.len();
    let mut out: Vec<char> = Vec::new();
    let mut pos: usize = 0;
    proof {
        assert(v@.subrange(0, v@.len() as int) =~= v@);
        assert(out@ + replace_all_spec(v@, pat@, repl@) =~= replace_all_spec(v@, pat@, repl@));
    }
    loop
        invariant
            pat@.len() >= 1,
            pos <= v@.len(),
            vlen == v@.len(),
            replace_all_spec(v@, pat@, repl@) == out@ + replace_all_spec(
                v@.subrange(pos as int, v@.len() as int),
                pat@,
                repl@,
            ),
        decreases v@.len() - pos,
    {
        let ghost suf = v@.subrange(pos as int, v@.len() as int);
        proof {
            lemma_first_match_shift(v@, pat@, pos as int);
        }
        match find_from(v, pat, pos) {
            None => {
                push_range(&mut out, v, pos, vlen);
                proof {
                    assert(first_match_from(suf, pat@, 0) is None);
                    assert(replace_all_spec(suf, pat@, repl@) == suf);
                    assert(out@ =~= replace_all_spec(v@, pat@, repl@));
                }
                return out;
            },
            Some(i) => {
                proof {
                    lemma_first_match_from_properties(v@, pat@, pos as int);
                    assert(pos <= i && occurs_at(v@, pat@, i as int));
                    assert(first_match_from(suf, pat@, 0) == Some(i - pos));
                }
                let ghost out0 = out@;
                push_range(&mut out, v, pos, i);
                let ghost out1 = out@;
                let mut k: usize = 0;
                while k < repl.len()
                    invariant
                        k <= repl@.len(),
                        out@ == out1 + repl@.subrange(0, k as int),
                    decreases repl@.len() - k,
                {
                    out.push(repl[k]);
                    k = k + 1;
                    proof {
                        assert(out1 + repl@.subrange(0, k as int) =~= (out1 + repl@.subrange(
                            0,
                            k - 1,
                        )).push(repl@[k - 1]));
                    }
                }
                proof {
                    assert(repl@.subrange(0, repl@.len() as int) =~= repl@);
                    let isuf = i - pos;
                    assert(replace_all_spec(suf, pat@, repl@) == suf.subrange(0, isuf) + repl@
                        + replace_all_spec(
                        suf.subrange(isuf + pat@.len(), suf.len() as int),
                        pat@,
                        repl@,
                    ));
                    assert(suf.subrange(0, isuf) =~= v@.subrange(pos as int, i as int));
                    assert(suf.subrange(isuf + pat@.len(), suf.len() as int) =~= v@.subrange(
                        i + pat@.len(),
                        v@.len() as int,
                    ));
                    assert(out0 + replace_all_spec(suf, pat@, repl@) =~= out@ + replace_all_spec(
                        v@.subrange(i + pat@.len(), v@.len() as int),
                        pat@,
                        repl@,
                    ));
                }
                pos = i + pat.len();
            },
        }
    }
}

/// The position of the leftmost occurrence of the character `c` in `s` at or
/// after `from`, if any.
pub open spec fn first_char_from(s: Seq<char>, c: char, from: int) -> Option<int>
    decreases s.len() - from,
{
    if from >= s.len() || from < 0 {
        None
    } else if s[from] == c {
        Some(from)
    } else {
        first_char_from(s, c, from + 1)
    }
}

/// What `first_char_from` returns: the first position of `c` at or after
/// `from`, or `None` when `c` does not occur there.
pub proof fn lemma_first_char_from_properties(s: Seq<char>, c: char, from: int)
    requires
        0 <= from,
    ensures
        match first_char_from(s, c, from) {
            Some(i) => from <= i < s.len() && s[i] == c && forall|j: int|
                from <= j < i ==> s[j] != c,
            None => forall|j: int| from <= j < s.len() ==> s[j] != c,
        },
    decreases s.len() - from,
{
    if from >= s.len() || from < 0 {
    } else if s[from] == c {
    } else {
        lemma_first_char_from_properties(s, c, from + 1);
    }
}

/// Find the leftmost occurrence of the character `c` in `v` at or after
/// `from`.
pub fn find_char_from(v: &Vec<char>, c: char, from: usize) -> (r: Option<usize>)
    ensures
        match r {
            Some(i) => first_char_from(v@, c, from as int) == Some(i as int),
            None => first_char_from(v@, c, from as int) is None,
        },
{
    let mut i: usize = from;
    while i < v.len()
        invariant
            first_char_from(v@, c, from as int) == first_char_from(v@, c, i as int),
        decreases v@.len() - i,
    {
        if v[i] == c {
            return Some(i);
        }
        i = i + 1;
    }
    None
}

// ---------------------------------------------------------------------------
// Searching for a pattern at the start of a line
// ---------------------------------------------------------------------------

/// Position `i` is the first character of a line of `s`.
pub open spec fn at_line_start(s: Seq<char>, i: int) -> bool {
    i == 0 || s[i - 1] == '\n'
}

/// The pattern `pat` occurs at position `i` of `s`, and that position starts
/// a line.
pub open spec fn marker_occurs_at(s: Seq<char>, pat: Seq<char>, i: int) -> bool {
    occurs_at(s, pat, i) && at_line_start(s, i)
}

/// The position of the leftmost line-start occurrence of `pat` in `s` at or
/// after `from`, if any.
pub open spec fn first_marker_from(s: Seq<char>, pat: Seq<char>, from: int) -> Option<int>
    decreases s.len() + 1 - from,
{
    if from + pat.len() > s.len() {
        None
    } else if marker_occurs_at(s, pat, from) {
        Some(from)
    } else {
        first_marker_from(s, pat, from + 1)
    }
}

/// Find the leftmost position at or after `from` where `pat` occurs at the
/// start of a line of `v`.
pub fn find_marker_from(v: &Vec<char>, pat: &Vec<char>, from: usize) -> (r: Option<usize>)
    requires
        pat@.len() >= 1,
    ensures
        match r {
            Some(i) => first_marker_from(v@, pat@, from as int) == Some(i as int),
            None => first_marker_from(v@, pat@, from as int) is None,
        },
{
    if pat.len() > v.len() {
        proof {
            lemma_first_marker_from_bound(v@, pat@, from as int);
        }
        return None;
    }
    let last_start: usize = v.len() - pat.len();
    let mut i: usize = from;
    while i <= last_start
        invariant
            pat@.len() >= 1,
            pat@.len() <= v@.len(),
            last_start == v@.len() - pat@.len(),
            last_start < usize::MAX,
            first_marker_from(v@, pat@, from as int) == first_marker_from(v@, pat@, i as int),
        decreases last_start + 1 - i,
    {
        let starts_line = i == 0 || v[i - 1] == '\n';
        if starts_line && is_match_at(v, pat, i) {
            return Some(i);
        }
        i = i + 1;
    }
    proof {
        assert(i + pat@.len() > v@.len());
    }
    None
}

/// What `first_marker_from` returns: the first line-start occurrence at or
/// after `from`, or `None` when there is none.
pub proof fn lemma_first_marker_from_properties(s: Seq<char>, pat: Seq<char>, from: int)
    ensures
        match first_marker_from(s, pat, from) {
            Some(i) => from <= i && marker_occurs_at(s, pat, i) && forall|j: int|
                from <= j < i ==> !marker_occurs_at(s, pat, j),
            None => forall|j: int| from <= j ==> !marker_occurs_at(s, pat, j),
        },
    decreases s.len() + 1 - from,
{
    if from + pat.len() > s.len() {
    } else if marker_occurs_at(s, pat, from) {
    } else {
        lemma_first_marker_from_properties(s, pat, from + 1);
    }
}

/// Copy the characters `v[from..to]` into a new vector.
pub fn subrange_chars(v: &Vec<char>, from: usize, to: usize) -> (r: Vec<char>)
    requires
        from <= to <= v@.len(),
    ensures
        r@ == v@.subrange(from as int, to as int),
{
    let mut r: Vec<char> = Vec::new();
    push_range(&mut r, v, from, to);
    proof {
        assert(r@ =~= v@.subrange(from as int, to as int));
    }
    r
}

/// A pattern longer than the text never occurs at a line start.
proof fn lemma_first_marker_from_bound(s: Seq<char>, pat: Seq<char>, from: int)
    requires
        pat.len() > s.len(),
    ensures
        first_marker_from(s, pat, from) is None,
    decreases s.len() + 1 - from,
{
    if from + pat.len() > s.len() {
    } else {
        lemma_first_marker_from_bound(s, pat, from + 1);
    }
}

} // verus!
