//! Verified text utilities shared across the crate.
//!
//! Strings are modelled as sequences of characters (`Seq<char>`).  Whitespace
//! handling is ASCII-based throughout: the notes this application manages are
//! markdown files whose structural characters (spaces, tabs, newlines) are
//! ASCII, and git's diagnostic output is ASCII as well.

use vstd::prelude::*;

verus! {

use vstd::string::StrSliceExecFns;
use vstd::string::StringExecFns;

// ───────────────────────── character predicates ─────────────────────────

pub open spec fn is_space_char(c: char) -> bool {
    c == ' ' || c == '\t' || c == '\n' || c == '\r'
}

pub fn char_is_space(c: char) -> (r: bool)
    ensures
        r == is_space_char(c),
{
    c == ' ' || c == '\t' || c == '\n' || c == '\r'
}

pub open spec fn lower_char(c: char) -> char {
    if 'A' <= c && c <= 'Z' {
        (((c as u8) + 32) as char)
    } else {
        c
    }
}

pub fn char_lower(c: char) -> (r: char)
    ensures
        r == lower_char(c),
{
    if 'A' <= c && c <= 'Z' {
        ((c as u8) + 32) as char
    } else {
        c
    }
}

pub open spec fn lower_seq(s: Seq<char>) -> Seq<char> {
    s.map_values(|c: char| lower_char(c))
}

// ───────────────────────── building strings ─────────────────────────

/// Relies on String::push: appends exactly one character at the end.
#[verifier::external_body]
pub fn push_char(s: &mut String, c: char)
    ensures
        final(s)@ == old(s)@.push(c),
{
    s.push(c);
}

// ───────────────────────── equality and case folding ─────────────────────────

pub fn str_eq(a: &str, b: &str) -> (r: bool)
    ensures
        r == (a@ == b@),
{
    let n = a.unicode_len();
    let m = b.unicode_len();
    if n != m {
        return false;
    }
    let mut i: usize = 0;
    while i < n
        invariant
            i <= n,
            n == a@.len(),
            n == b@.len(),
            forall|k: int| 0 <= k < i ==> a@[k] == b@[k],
        decreases n - i,
    {
        if a.get_char(i) != b.get_char(i) {
            return false;
        }
        i += 1;
    }
    proof {
        assert(a@ =~= b@);
    }
    true
}

pub fn eq_ignore_case(a: &str, b: &str) -> (r: bool)
    ensures
        r == (lower_seq(a@) == lower_seq(b@)),
{
    let n = a.unicode_len();
    let m = b.unicode_len();
    if n != m {
        proof {
            assert(lower_seq(a@).len() == a@.len());
            assert(lower_seq(b@).len() == b@.len());
        }
        return false;
    }
    let mut i: usize = 0;
    while i < n
        invariant
            i <= n,
            n == a@.len(),
            n == b@.len(),
            forall|k: int| 0 <= k < i ==> lower_char(a@[k]) == lower_char(b@[k]),
        decreases n - i,
    {
        if char_lower(a.get_char(i)) != char_lower(b.get_char(i)) {
            proof {
                assert(lower_seq(a@)[i as int] != lower_seq(b@)[i as int]);
            }
            return false;
        }
        i += 1;
    }
    proof {
        assert(lower_seq(a@) =~= lower_seq(b@));
    }
    true
}

pub fn to_lowercase(s: &str) -> (r: String)
    ensures
        r@ == lower_seq(s@),
{
    let n = s.unicode_len();
    let mut out = String::new();
    let mut i: usize = 0;
    while i < n
        invariant
            i <= n,
            n == s@.len(),
            out@ == lower_seq(s@.subrange(0, i as int)),
        decreases n - i,
    {
        let c = s.get_char(i);
        push_char(&mut out, char_lower(c));
        proof {
            assert(s@.subrange(0, i + 1 as int) =~= s@.subrange(0, i as int).push(s@[i as int]));
            assert(lower_seq(s@.subrange(0, i + 1 as int)) =~= lower_seq(
                s@.subrange(0, i as int),
            ).push(lower_char(s@[i as int])));
        }
        i += 1;
    }
    proof {
        assert(s@.subrange(0, n as int) =~= s@);
    }
    out
}

// ───────────────────────── trimming ─────────────────────────

pub open spec fn trim_start_spec(s: Seq<char>) -> Seq<char>
    decreases s.len(),
{
    if s.len() == 0 {
        s
    } else if is_space_char(s[0]) {
        trim_start_spec(s.drop_first())
    } else {
        s
    }
}

pub open spec fn trim_end_spec(s: Seq<char>) -> Seq<char>
    decreases s.len(),
{
    if s.len() == 0 {
        s
    } else if is_space_char(s[s.len() - 1]) {
        trim_end_spec(s.drop_last())
    } else {
        s
    }
}

/// The string with ASCII whitespace removed from both ends.
pub open spec fn trim_spec(s: Seq<char>) -> Seq<char> {
    trim_end_spec(trim_start_spec(s))
}

proof fn lemma_trim_start_at(s: Seq<char>, i: int)
    requires
        0 <= i <= s.len(),
        forall|k: int| 0 <= k < i ==> is_space_char(s[k]),
        i < s.len() ==> !is_space_char(s[i]),
    ensures
        trim_start_spec(s) == s.subrange(i, s.len() as int),
    decreases i,
{
    if i == 0 {
        assert(s.subrange(0, s.len() as int) =~= s);
    } else {
        lemma_trim_start_at(s.drop_first(), i - 1);
        assert(s.drop_first().subrange(i - 1, s.drop_first().len() as int) =~= s.subrange(
            i,
            s.len() as int,
        ));
    }
}

proof fn lemma_trim_end_at(s: Seq<char>, j: int)
    requires
        0 <= j <= s.len(),
        forall|k: int| j <= k < s.len() ==> is_space_char(s[k]),
        j > 0 ==> !is_space_char(s[j - 1]),
    ensures
        trim_end_spec(s) == s.subrange(0, j),
    decreases s.len() - j,
{
    if j == s.len() {
        if s.len() == 0 {
            assert(s.subrange(0, 0) =~= s);
        } else if is_space_char(s[s.len() - 1]) {
            lemma_trim_end_at(s.drop_last(), j - 1);
            assert(s.drop_last().subrange(0, j - 1) =~= s.subrange(0, j - 1));
            assert(false);
        } else {
            assert(s.subrange(0, j) =~= s);
        }
    } else {
        assert(is_space_char(s[s.len() - 1]));
        lemma_trim_end_at(s.drop_last(), j);
        assert(s.drop_last().subrange(0, j) =~= s.subrange(0, j));
    }
}

pub fn trim(s: &str) -> (r: String)
    ensures
        r@ == trim_spec(s@),
{
    let n = s.unicode_len();
    let mut i: usize = 0;
    while i < n && char_is_space(s.get_char(i))
        invariant
            i <= n,
            n == s@.len(),
            forall|k: int| 0 <= k < i ==> is_space_char(s@[k]),
        decreases n - i,
    {
        i += 1;
    }
    let mut j: usize = n;
    while j > i && char_is_space(s.get_char(j - 1))
        invariant
            i <= j <= n,
            n == s@.len(),
            forall|k: int| j <= k < n ==> is_space_char(s@[k]),
        decreases j,
    {
        j -= 1;
    }
    proof {
        lemma_trim_start_at(s@, i as int);
        let t = s@.subrange(i as int, n as int);
        lemma_trim_end_at(t, j - i as int);
        assert(t.subrange(0, j - i as int) =~= s@.subrange(i as int, j as int));
    }
    s.substring_char(i, j).to_owned()
}

proof fn lemma_trim_end_no_trailing_space(s: Seq<char>)
    ensures
        trim_end_spec(s).len() == 0 || !is_space_char(trim_end_spec(s).last()),
    decreases s.len(),
{
    if s.len() > 0 && is_space_char(s[s.len() - 1]) {
        lemma_trim_end_no_trailing_space(s.drop_last());
    }
}

/// Trimming trailing whitespace twice is the same as trimming it once.
pub proof fn lemma_trim_end_idempotent(s: Seq<char>)
    ensures
        trim_end_spec(trim_end_spec(s)) == trim_end_spec(s),
{
    lemma_trim_end_no_trailing_space(s);
}

/// Trims ASCII whitespace from the end only.
pub fn trim_end(s: &str) -> (r: String)
    ensures
        r@ == trim_end_spec(s@),
{
    let n = s.unicode_len();
    let mut j: usize = n;
    while j > 0 && char_is_space(s.get_char(j - 1))
        invariant
            j <= n,
            n == s@.len(),
            forall|k: int| j <= k < n ==> is_space_char(s@[k]),
        decreases j,
    {
        j -= 1;
    }
    proof {
        lemma_trim_end_at(s@, j as int);
    }
    s.substring_char(0, j).to_owned()
}

/// True when the string is empty after trimming ASCII whitespace.
pub fn trim_is_empty(s: &str) -> (r: bool)
    ensures
        r == (trim_spec(s@).len() == 0),
{
    let t = trim(s);
    t.as_str().unicode_len() == 0
}

// ───────────────────────── substring search ─────────────────────────

pub open spec fn matches_at(s: Seq<char>, i: int, sub: Seq<char>) -> bool {
    0 <= i && i + sub.len() <= s.len() && s.subrange(i, i + sub.len()) == sub
}

/// `sub` occurs somewhere inside `s`.
pub open spec fn contains_seq(s: Seq<char>, sub: Seq<char>) -> bool {
    exists|i: int| matches_at(s, i, sub)
}

fn match_at(s: &str, i: usize, sub: &str) -> (r: bool)
    requires
        i + sub@.len() <= s@.len(),
    ensures
        r == matches_at(s@, i as int, sub@),
{
    let n = s.unicode_len();
    let m = sub.unicode_len();
    let mut j: usize = 0;
    while j < m
        invariant
            j <= m,
            m == sub@.len(),
            n == s@.len(),
            i + m <= n,
            forall|k: int| 0 <= k < j ==> s@[i + k] == sub@[k],
        decreases m - j,
    {
        if s.get_char(i + j) != sub.get_char(j) {
            proof {
                assert(s@.subrange(i as int, i + m as int)[j as int] == s@[i + j]);
            }
            return false;
        }
        j += 1;
    }
    proof {
        assert(s@.subrange(i as int, i + m as int) =~= sub@);
    }
    true
}

/// First index at which `sub` occurs in `s`, if any.
pub fn find_str(s: &str, sub: &str) -> (r: Option<usize>)
    ensures
        match r {
            Some(i) => matches_at(s@, i as int, sub@) && (forall|k: int|
                0 <= k < i ==> !matches_at(s@, k, sub@)),
            None => !contains_seq(s@, sub@),
        },
{
    let n = s.unicode_len();
    let m = sub.unicode_len();
    if m > n {
        return None;
    }
    if m == 0 {
        proof {
            assert(s@.subrange(0, 0) =~= sub@);
        }
        return Some(0);
    }
    let mut i: usize = 0;
    while i <= n - m
        invariant
            1 <= m <= n,
            n == s@.len(),
            m == sub@.len(),
            i <= n - m + 1,
            forall|k: int| 0 <= k < i ==> !matches_at(s@, k, sub@),
        decreases n - i,
    {
        if match_at(s, i, sub) {
            return Some(i);
        }
        i += 1;
    }
    proof {
        assert forall|k: int| !matches_at(s@, k, sub@) by {
            if 0 <= k <= n - m {
                assert(!matches_at(s@, k, sub@));
            }
        }
    }
    None
}

pub fn contains_str(s: &str, sub: &str) -> (r: bool)
    ensures
        r == contains_seq(s@, sub@),
{
    match find_str(s, sub) {
        Some(_) => true,
        None => false,
    }
}

pub open spec fn has_prefix(s: Seq<char>, p: Seq<char>) -> bool {
    p.len() <= s.len() && s.subrange(0, p.len() as int) == p
}

pub fn starts_with_str(s: &str, p: &str) -> (r: bool)
    ensures
        r == has_prefix(s@, p@),
{
    let n = s.unicode_len();
    let m = p.unicode_len();
    if m > n {
        return false;
    }
    match_at(s, 0, p)
}

// ───────────────────────── mapping and slicing ─────────────────────────

/// Every occurrence of `from` replaced by `to`.
pub open spec fn replace_char_spec(s: Seq<char>, from: char, to: char) -> Seq<char> {
    s.map_values(|c: char| if c == from { to } else { c })
}

pub fn replace_char(s: &str, from: char, to: char) -> (r: String)
    ensures
        r@ == replace_char_spec(s@, from, to),
{
    let n = s.unicode_len();
    let mut out = String::new();
    let mut i: usize = 0;
    while i < n
        invariant
            i <= n,
            n == s@.len(),
            out@ == replace_char_spec(s@.subrange(0, i as int), from, to),
        decreases n - i,
    {
        let c = s.get_char(i);
        if c == from {
            push_char(&mut out, to);
        } else {
            push_char(&mut out, c);
        }
        proof {
            assert(s@.subrange(0, i + 1 as int) =~= s@.subrange(0, i as int).push(s@[i as int]));
            assert(replace_char_spec(s@.subrange(0, i + 1 as int), from, to) =~= replace_char_spec(
                s@.subrange(0, i as int),
                from,
                to,
            ).push(if s@[i as int] == from {
                to
            } else {
                s@[i as int]
            }));
        }
        i += 1;
    }
    proof {
        assert(s@.subrange(0, n as int) =~= s@);
    }
    out
}

/// The first `n` characters, or the whole string if shorter.
pub open spec fn take_chars(s: Seq<char>, n: int) -> Seq<char> {
    if s.len() <= n {
        s
    } else {
        s.subrange(0, n)
    }
}

pub fn truncate_chars(s: &str, n: usize) -> (r: String)
    ensures
        r@ == take_chars(s@, n as int),
{
    let len = s.unicode_len();
    if len <= n {
        proof {
            assert(s@.subrange(0, len as int) =~= s@);
        }
        s.substring_char(0, len).to_owned()
    } else {
        s.substring_char(0, n).to_owned()
    }
}

pub open spec fn repeat_seq(s: Seq<char>, n: int) -> Seq<char>
    decreases n,
{
    if n <= 0 {
        Seq::<char>::empty()
    } else {
        repeat_seq(s, n - 1) + s
    }
}

pub fn repeat_str(s: &str, n: usize) -> (r: String)
    ensures
        r@ == repeat_seq(s@, n as int),
{
    let mut out = String::new();
    let mut i: usize = 0;
    proof {
        assert(out@ =~= repeat_seq(s@, 0));
    }
    while i < n
        invariant
            i <= n,
            out@ == repeat_seq(s@, i as int),
        decreases n - i,
    {
        out.append(s);
        i += 1;
    }
    out
}

// ───────────────────────── splitting and joining ─────────────────────────

/// The trimmed, non-blank entries of a sequence of lines.
pub open spec fn nonblank_trimmed(lines: Seq<Seq<char>>) -> Seq<Seq<char>>
    decreases lines.len(),
{
    if lines.len() == 0 {
        Seq::<Seq<char>>::empty()
    } else {
        let rest = nonblank_trimmed(lines.drop_first());
        if trim_spec(lines[0]).len() > 0 {
            seq![trim_spec(lines[0])] + rest
        } else {
            rest
        }
    }
}

/// Splitting on a separator character; always at least one piece, and the
/// pieces joined back with the separator give the original string.
pub open spec fn split_char_spec(s: Seq<char>, sep: char) -> Seq<Seq<char>>
    decreases s.len(),
{
    if s.len() == 0 {
        seq![Seq::<char>::empty()]
    } else if s[0] == sep {
        seq![Seq::<char>::empty()] + split_char_spec(s.drop_first(), sep)
    } else {
        let rest = split_char_spec(s.drop_first(), sep);
        seq![seq![s[0]] + rest[0]] + rest.drop_first()
    }
}

pub proof fn lemma_split_len(s: Seq<char>, sep: char)
    ensures
        split_char_spec(s, sep).len() >= 1,
    decreases s.len(),
{
    if s.len() == 0 {
    } else {
        lemma_split_len(s.drop_first(), sep);
    }
}

pub fn split_char(s: &str, sep: char) -> (r: Vec<String>)
    ensures
        r.deep_view() == split_char_spec(s@, sep),
        r.len() >= 1,
{
    let n = s.unicode_len();
    let mut pieces: Vec<String> = Vec::new();
    let mut cur = String::new();
    let mut i: usize = 0;
    proof {
        lemma_split_len(s@.subrange(0, n as int), sep);
        assert(s@.subrange(0, n as int) =~= s@);
    }
    while i < n
        invariant
            i <= n,
            n == s@.len(),
            split_char_spec(s@, sep) == pieces.deep_view() + seq![cur@ + split_char_spec(
                s@.subrange(i as int, n as int),
                sep,
            )[0]] + split_char_spec(s@.subrange(i as int, n as int), sep).drop_first(),
        decreases n - i,
    {
        let ghost suf = s@.subrange(i as int, n as int);
        let ghost suf2 = s@.subrange(i + 1 as int, n as int);
        proof {
            assert(suf.len() > 0);
            assert(suf[0] == s@[i as int]);
            assert(suf.drop_first() =~= suf2);
            lemma_split_len(suf2, sep);
        }
        let c = s.get_char(i);
        if c == sep {
            proof {
                assert(split_char_spec(suf, sep) == seq![Seq::<char>::empty()] + split_char_spec(
                    suf2,
                    sep,
                ));
                assert(split_char_spec(suf, sep)[0] =~= Seq::<char>::empty());
                assert(split_char_spec(suf, sep).drop_first() =~= split_char_spec(suf2, sep));
                assert(cur@ + split_char_spec(suf, sep)[0] =~= cur@);
            }
            let ghost old_pieces = pieces.deep_view();
            let ghost old_cur = cur@;
            pieces.push(cur);
            cur = String::new();
            proof {
                assert(pieces.deep_view() =~= old_pieces.push(old_cur));
                assert(split_char_spec(suf2, sep) =~= seq![split_char_spec(suf2, sep)[0]]
                    + split_char_spec(suf2, sep).drop_first());
                assert(old_pieces + seq![old_cur] + split_char_spec(suf2, sep) =~= old_pieces + seq![
                    old_cur + split_char_spec(suf, sep)[0],
                ] + split_char_spec(suf, sep).drop_first());
                assert(pieces.deep_view() + seq![cur@ + split_char_spec(suf2, sep)[0]]
                    + split_char_spec(suf2, sep).drop_first() =~= old_pieces + seq![old_cur]
                    + split_char_spec(suf2, sep));
            }
        } else {
            proof {
                let rest = split_char_spec(suf2, sep);
                assert(split_char_spec(suf, sep) == seq![seq![suf[0]] + rest[0]]
                    + rest.drop_first());
                assert(split_char_spec(suf, sep)[0] == seq![suf[0]] + rest[0]);
                assert(split_char_spec(suf, sep).drop_first() =~= rest.drop_first());
            }
            let ghost old_cur = cur@;
            push_char(&mut cur, c);
            proof {
                let rest = split_char_spec(suf2, sep);
                assert(cur@ + rest[0] =~= old_cur + (seq![s@[i as int]] + rest[0]));
            }
        }
        i += 1;
    }
    proof {
        let suf = s@.subrange(n as int, n as int);
        assert(suf.len() == 0);
        assert(split_char_spec(suf, sep) == seq![Seq::<char>::empty()]);
        assert(cur@ + split_char_spec(suf, sep)[0] =~= cur@);
        assert(split_char_spec(suf, sep).drop_first() =~= Seq::<Seq<char>>::empty());
    }
    let ghost old_pieces = pieces.deep_view();
    let ghost old_cur = cur@;
    pieces.push(cur);
    proof {
        assert(pieces.deep_view() =~= old_pieces.push(old_cur));
        assert(split_char_spec(s@, sep) =~= old_pieces.push(old_cur));
    }
    pieces
}

/// The lines of a string: pieces between newline characters, without a
/// trailing empty piece (so a final newline does not add a line).
pub open spec fn lines_spec(s: Seq<char>) -> Seq<Seq<char>> {
    let p = split_char_spec(s, '\n');
    if p.len() > 0 && p.last().len() == 0 {
        p.drop_last()
    } else {
        p
    }
}

pub fn split_lines(s: &str) -> (r: Vec<String>)
    ensures
        r.deep_view() == lines_spec(s@),
{
    let mut v = split_char(s, '\n');
    let last = v.len() - 1;
    if v[last].as_str().unicode_len() == 0 {
        proof {
            assert(v.deep_view().last() == v[last as int]@);
        }
        let _ = v.pop();
        proof {
            assert(v.deep_view() =~= lines_spec(s@));
        }
    }
    v
}

pub open spec fn join_char_spec(ps: Seq<Seq<char>>, sep: char) -> Seq<char>
    decreases ps.len(),
{
    if ps.len() == 0 {
        Seq::<char>::empty()
    } else if ps.len() == 1 {
        ps[0]
    } else {
        ps[0] + seq![sep] + join_char_spec(ps.drop_first(), sep)
    }
}

proof fn lemma_join_push(ps: Seq<Seq<char>>, p: Seq<char>, sep: char)
    ensures
        ps.len() == 0 ==> join_char_spec(ps.push(p), sep) == p,
        ps.len() > 0 ==> join_char_spec(ps.push(p), sep) == join_char_spec(ps, sep) + seq![sep] + p,
    decreases ps.len(),
{
    if ps.len() == 0 {
        assert(ps.push(p)[0] == p);
        assert(join_char_spec(ps.push(p), sep) == p);
    } else {
        lemma_join_push(ps.drop_first(), p, sep);
        assert(ps.push(p).drop_first() =~= ps.drop_first().push(p));
        if ps.len() == 1 {
            assert(join_char_spec(ps.push(p), sep) == ps[0] + seq![sep] + join_char_spec(
                ps.drop_first().push(p),
                sep,
            ));
            assert(join_char_spec(ps.drop_first().push(p), sep) == p);
        } else {
            assert(join_char_spec(ps, sep) + seq![sep] + p =~= ps[0] + seq![sep] + (join_char_spec(
                ps.drop_first(),
                sep,
            ) + seq![sep] + p));
        }
    }
}

pub fn join_strings(ps: &Vec<String>, sep: char) -> (r: String)
    ensures
        r@ == join_char_spec(ps.deep_view(), sep),
{
    let mut out = String::new();
    let mut i: usize = 0;
    while i < ps.len()
        invariant
            i <= ps.len(),
            out@ == join_char_spec(ps.deep_view().take(i as int), sep),
        decreases ps.len() - i,
    {
        proof {
            assert(ps.deep_view().take(i + 1 as int) =~= ps.deep_view().take(i as int).push(
                ps.deep_view()[i as int],
            ));
            lemma_join_push(ps.deep_view().take(i as int), ps.deep_view()[i as int], sep);
        }
        if i > 0 {
            push_char(&mut out, sep);
        }
        out.append(ps[i].as_str());
        proof {
            assert(ps.deep_view().take(i as int).len() == i as int);
        }
        i += 1;
    }
    proof {
        assert(ps.deep_view().take(ps.len() as int) =~= ps.deep_view());
    }
    out
}

/// Index of the first occurrence of `c` in `s`, or -1.
pub open spec fn first_index_of_char(s: Seq<char>, c: char) -> int
    decreases s.len(),
{
    if s.len() == 0 {
        -1
    } else if s[0] == c {
        0
    } else {
        let r = first_index_of_char(s.drop_first(), c);
        if r == -1 {
            -1
        } else {
            r + 1
        }
    }
}

proof fn lemma_first_index_at(s: Seq<char>, c: char, i: int)
    requires
        0 <= i < s.len(),
        s[i] == c,
        forall|k: int| 0 <= k < i ==> s[k] != c,
    ensures
        first_index_of_char(s, c) == i,
    decreases i,
{
    if i > 0 {
        lemma_first_index_at(s.drop_first(), c, i - 1);
    }
}

proof fn lemma_first_index_none(s: Seq<char>, c: char)
    requires
        forall|k: int| 0 <= k < s.len() ==> s[k] != c,
    ensures
        first_index_of_char(s, c) == -1,
    decreases s.len(),
{
    if s.len() > 0 {
        lemma_first_index_none(s.drop_first(), c);
    }
}

pub fn first_index_of(s: &str, c: char) -> (r: Option<usize>)
    ensures
        r is Some ==> r->0 == first_index_of_char(s@, c) && r->0 < s@.len() && s@[r->0 as int]
            == c,
        r is None ==> first_index_of_char(s@, c) == -1,
{
    let n = s.unicode_len();
    let mut i: usize = 0;
    while i < n
        invariant
            i <= n,
            n == s@.len(),
            forall|k: int| 0 <= k < i ==> s@[k] != c,
        decreases n - i,
    {
        if s.get_char(i) == c {
            proof {
                lemma_first_index_at(s@, c, i as int);
            }
            return Some(i);
        }
        i += 1;
    }
    proof {
        lemma_first_index_none(s@, c);
    }
    None
}

/// The characters of a string as a vector.
pub fn str_to_chars(s: &str) -> (r: Vec<char>)
    ensures
        r@ == s@,
{
    let n = s.unicode_len();
    let mut out: Vec<char> = Vec::new();
    let mut i: usize = 0;
    while i < n
        invariant
            i <= n,
            n == s@.len(),
            out@ == s@.subrange(0, i as int),
        decreases n - i,
    {
        out.push(s.get_char(i));
        proof {
            assert(s@.subrange(0, i + 1 as int) =~= s@.subrange(0, i as int).push(s@[i as int]));
        }
        i += 1;
    }
    proof {
        assert(s@.subrange(0, n as int) =~= s@);
    }
    out
}

// ───────────────────────── words ─────────────────────────

/// Every ASCII whitespace character replaced by a plain space.
pub open spec fn space_mapped(s: Seq<char>) -> Seq<char> {
    s.map_values(|c: char| if is_space_char(c) { ' ' } else { c })
}

/// The non-empty pieces of a sequence of pieces.
pub open spec fn nonempty_pieces(ps: Seq<Seq<char>>) -> Seq<Seq<char>>
    decreases ps.len(),
{
    if ps.len() == 0 {
        Seq::<Seq<char>>::empty()
    } else {
        let rest = nonempty_pieces(ps.drop_first());
        if ps[0].len() > 0 {
            seq![ps[0]] + rest
        } else {
            rest
        }
    }
}

/// The whitespace-separated words of a string.
pub open spec fn words_spec(s: Seq<char>) -> Seq<Seq<char>> {
    nonempty_pieces(split_char_spec(space_mapped(s), ' '))
}

pub fn split_words(s: &str) -> (r: Vec<String>)
    ensures
        r.deep_view() == words_spec(s@),
{
    let n = s.unicode_len();
    let mut mapped = String::new();
    let mut i: usize = 0;
    while i < n
        invariant
            i <= n,
            n == s@.len(),
            mapped@ == space_mapped(s@.subrange(0, i as int)),
        decreases n - i,
    {
        let c = s.get_char(i);
        if char_is_space(c) {
            push_char(&mut mapped, ' ');
        } else {
            push_char(&mut mapped, c);
        }
        proof {
            assert(s@.subrange(0, i + 1 as int) =~= s@.subrange(0, i as int).push(s@[i as int]));
            assert(space_mapped(s@.subrange(0, i + 1 as int)) =~= space_mapped(
                s@.subrange(0, i as int),
            ).push(if is_space_char(s@[i as int]) {
                ' '
            } else {
                s@[i as int]
            }));
        }
        i += 1;
    }
    proof {
        assert(s@.subrange(0, n as int) =~= s@);
    }
    let pieces = split_char(mapped.as_str(), ' ');
    let ghost pv = pieces.deep_view();
    let mut out: Vec<String> = Vec::new();
    let mut j: usize = 0;
    proof {
        assert(pv.skip(0) =~= pv);
        assert(out.deep_view() + nonempty_pieces(pv) =~= nonempty_pieces(pv));
    }
    while j < pieces.len()
        invariant
            j <= pieces.len(),
            pieces.deep_view() == pv,
            pv.len() == pieces.len(),
            words_spec(s@) == nonempty_pieces(pv),
            nonempty_pieces(pv) == out.deep_view() + nonempty_pieces(pv.skip(j as int)),
        decreases pieces.len() - j,
    {
        proof {
            assert(pv.skip(j as int)[0] == pv[j as int]);
            assert(pv.skip(j as int).drop_first() =~= pv.skip(j + 1 as int));
            assert(pv[j as int] == pieces[j as int]@);
        }
        if pieces[j].as_str().unicode_len() > 0 {
            let ghost old_out = out.deep_view();
            let w = pieces[j].clone();
            out.push(w);
            proof {
                assert(out.deep_view() =~= old_out.push(pv[j as int]));
                assert(old_out + (seq![pv[j as int]] + nonempty_pieces(pv.skip(j + 1 as int)))
                    =~= out.deep_view() + nonempty_pieces(pv.skip(j + 1 as int)));
            }
        }
        j += 1;
    }
    proof {
        assert(pv.skip(pieces.len() as int) =~= Seq::<Seq<char>>::empty());
        assert(out.deep_view() + nonempty_pieces(pv.skip(pieces.len() as int)) =~= out.deep_view());
    }
    out
}

// ───────────────────────── decimal and hex ─────────────────────────

pub open spec fn is_digit_char(c: char) -> bool {
    '0' <= c && c <= '9'
}

pub open spec fn digit_val(c: char) -> int {
    c as int - '0' as int
}

pub open spec fn all_digits(s: Seq<char>) -> bool {
    forall|k: int| 0 <= k < s.len() ==> is_digit_char(#[trigger] s[k])
}

/// The value of a string of decimal digits.
pub open spec fn dec_value(s: Seq<char>) -> int
    decreases s.len(),
{
    if s.len() == 0 {
        0
    } else {
        dec_value(s.drop_last()) * 10 + digit_val(s[s.len() - 1])
    }
}

pub open spec fn pow10(n: int) -> int
    decreases n,
{
    if n <= 0 {
        1
    } else {
        10 * pow10(n - 1)
    }
}

proof fn lemma_dec_value_bound(s: Seq<char>)
    requires
        all_digits(s),
    ensures
        0 <= dec_value(s) < pow10(s.len() as int),
    decreases s.len(),
{
    if s.len() == 0 {
    } else {
        assert(all_digits(s.drop_last())) by {
            assert(forall|k: int|
                0 <= k < s.drop_last().len() ==> s.drop_last()[k] == #[trigger] s[k]);
        }
        lemma_dec_value_bound(s.drop_last());
        assert(is_digit_char(s[s.len() - 1]));
    }
}

proof fn lemma_pow10_pos(n: int)
    ensures
        pow10(n) >= 1,
    decreases n,
{
    if n > 0 {
        lemma_pow10_pos(n - 1);
    }
}

proof fn lemma_pow10_le(a: int, b: int)
    requires
        a <= b,
    ensures
        pow10(a) <= pow10(b),
    decreases b,
{
    if a < b && b > 0 {
        lemma_pow10_le(a, b - 1);
        lemma_pow10_pos(b - 1);
    }
}

fn char_digit(c: char) -> (r: Option<u32>)
    ensures
        r is Some <==> is_digit_char(c),
        r is Some ==> r->0 == digit_val(c) && r->0 < 10,
{
    if '0' <= c && c <= '9' {
        Some((c as u32) - ('0' as u32))
    } else {
        None
    }
}

/// Parses an unsigned decimal number of at most 9 digits.
pub fn parse_u32_dec(s: &str) -> (r: Option<u32>)
    ensures
        r is Some <==> (1 <= s@.len() <= 9 && all_digits(s@)),
        r is Some ==> r->0 == dec_value(s@),
{
    let n = s.unicode_len();
    if n == 0 || n > 9 {
        return None;
    }
    let mut val: u32 = 0;
    let mut i: usize = 0;
    while i < n
        invariant
            i <= n,
            1 <= n <= 9,
            n == s@.len(),
            all_digits(s@.subrange(0, i as int)),
            val == dec_value(s@.subrange(0, i as int)),
            val < pow10(i as int),
        decreases n - i,
    {
        let c = s.get_char(i);
        match char_digit(c) {
            Some(d) => {
                proof {
                    lemma_pow10_le(i as int, 8);
                    reveal_with_fuel(pow10, 10);
                    assert(pow10(8) == 100000000);
                    assert(s@.subrange(0, i + 1 as int).drop_last() =~= s@.subrange(0, i as int));
                    assert(all_digits(s@.subrange(0, i + 1 as int))) by {
                        assert(forall|k: int|
                            0 <= k < i ==> #[trigger] s@.subrange(0, i + 1 as int)[k]
                                == s@.subrange(0, i as int)[k]);
                        assert(s@.subrange(0, i + 1 as int)[i as int] == s@[i as int]);
                    }
                }
                val = val * 10 + d;
                i += 1;
            },
            None => {
                proof {
                    assert(!all_digits(s@));
                }
                return None;
            },
        }
    }
    proof {
        assert(s@.subrange(0, n as int) =~= s@);
    }
    Some(val)
}

/// Parses a decimal byte value (0 to 255), rejecting anything else.
pub fn parse_u8_dec(s: &str) -> (r: Option<u8>)
    ensures
        r is Some <==> (1 <= s@.len() <= 9 && all_digits(s@) && dec_value(s@) <= 255),
        r is Some ==> r->0 == dec_value(s@),
{
    match parse_u32_dec(s) {
        Some(v) => {
            if v <= 255 {
                Some(v as u8)
            } else {
                None
            }
        },
        None => None,
    }
}

pub open spec fn is_hex_digit_char(c: char) -> bool {
    ('0' <= c && c <= '9') || ('a' <= c && c <= 'f') || ('A' <= c && c <= 'F')
}

pub open spec fn hex_val(c: char) -> int {
    if '0' <= c && c <= '9' {
        c as int - '0' as int
    } else if 'a' <= c && c <= 'f' {
        c as int - 'a' as int + 10
    } else {
        c as int - 'A' as int + 10
    }
}

fn char_hex_digit(c: char) -> (r: Option<u32>)
    ensures
        r is Some <==> is_hex_digit_char(c),
        r is Some ==> r->0 == hex_val(c) && r->0 < 16,
{
    if '0' <= c && c <= '9' {
        Some((c as u32) - ('0' as u32))
    } else if 'a' <= c && c <= 'f' {
        Some((c as u32) - ('a' as u32) + 10)
    } else if 'A' <= c && c <= 'F' {
        Some((c as u32) - ('A' as u32) + 10)
    } else {
        None
    }
}

/// Parses exactly two hex digits as a byte.
pub fn parse_u8_hex2(s: &str) -> (r: Option<u8>)
    ensures
        r is Some <==> (s@.len() == 2 && is_hex_digit_char(s@[0]) && is_hex_digit_char(s@[1])),
        r is Some ==> r->0 == 16 * hex_val(s@[0]) + hex_val(s@[1]),
{
    if s.unicode_len() != 2 {
        return None;
    }
    let hi = char_hex_digit(s.get_char(0));
    let lo = char_hex_digit(s.get_char(1));
    match (hi, lo) {
        (Some(h), Some(l)) => Some((16 * h + l) as u8),
        _ => None,
    }
}

pub open spec fn dec_digit_char(d: int) -> char {
    ((48 + d) as u8) as char
}

/// The shortest decimal representation of `v` (no leading zeros).
pub open spec fn dec_seq(v: int) -> Seq<char>
    decreases v,
{
    if v < 10 {
        seq![dec_digit_char(v)]
    } else {
        dec_seq(v / 10).push(dec_digit_char(v % 10))
    }
}

pub fn u32_to_dec(v: u32) -> (r: String)
    ensures
        r@ == dec_seq(v as int),
    decreases v,
{
    if v < 10 {
        let mut s = String::new();
        push_char(&mut s, ((48 + v) as u8) as char);
        proof {
            assert(s@ =~= seq![dec_digit_char(v as int)]);
        }
        s
    } else {
        let mut s = u32_to_dec(v / 10);
        push_char(&mut s, ((48 + v % 10) as u8) as char);
        s
    }
}

pub open spec fn hex_digit_char(d: int) -> char {
    if d < 10 {
        ((48 + d) as u8) as char
    } else {
        ((87 + d) as u8) as char
    }
}

/// Two lowercase hex digits for a byte.
pub fn u8_to_hex2(v: u8) -> (r: String)
    ensures
        r@ == seq![hex_digit_char(v as int / 16), hex_digit_char(v as int % 16)],
{
    let hi = (v / 16) as u32;
    let lo = (v % 16) as u32;
    let mut s = String::new();
    if hi < 10 {
        push_char(&mut s, ((48 + hi) as u8) as char);
    } else {
        push_char(&mut s, ((87 + hi) as u8) as char);
    }
    if lo < 10 {
        push_char(&mut s, ((48 + lo) as u8) as char);
    } else {
        push_char(&mut s, ((87 + lo) as u8) as char);
    }
    proof {
        assert(s@ =~= seq![hex_digit_char(v as int / 16), hex_digit_char(v as int % 16)]);
    }
    s
}

} // verus!
