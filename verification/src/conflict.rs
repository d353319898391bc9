//! Naming of conflict duplicates: when a pull leaves a path conflicted, the
//! local version is preserved under a sibling name carrying a
//! `-conflict-<timestamp>` marker inserted before the file extension.

use vstd::prelude::*;
use crate::text;

verus! {

use vstd::string::StrSliceExecFns;
use vstd::string::StringExecFns;

// ───────────────────────── last occurrence of a character ─────────────────────────

/// Index of the last occurrence of `c` in `s`, or -1.
pub open spec fn last_index_of_char(s: Seq<char>, c: char) -> int
    decreases s.len(),
{
    if s.len() == 0 {
        -1
    } else if s[s.len() - 1] == c {
        s.len() - 1
    } else {
        last_index_of_char(s.drop_last(), c)
    }
}

pub proof fn lemma_last_index_bounds(s: Seq<char>, c: char)
    ensures
        -1 <= last_index_of_char(s, c) < s.len(),
    decreases s.len(),
{
    if s.len() > 0 && s[s.len() - 1] != c {
        lemma_last_index_bounds(s.drop_last(), c);
    }
}

proof fn lemma_last_index_at(s: Seq<char>, c: char, d: int)
    requires
        0 <= d < s.len(),
        s[d] == c,
        forall|k: int| d < k < s.len() ==> s[k] != c,
    ensures
        last_index_of_char(s, c) == d,
    decreases s.len() - d,
{
    if d == s.len() - 1 {
    } else {
        lemma_last_index_at(s.drop_last(), c, d);
    }
}

proof fn lemma_last_index_none(s: Seq<char>, c: char)
    requires
        forall|k: int| 0 <= k < s.len() ==> s[k] != c,
    ensures
        last_index_of_char(s, c) == -1,
    decreases s.len(),
{
    if s.len() > 0 {
        lemma_last_index_none(s.drop_last(), c);
    }
}

pub fn last_index_of(s: &str, c: char) -> (r: Option<usize>)
    ensures
        r is Some ==> r->0 == last_index_of_char(s@, c) && r->0 < s@.len() && s@[r->0 as int] == c,
        r is None ==> last_index_of_char(s@, c) == -1,
{
    let n = s.unicode_len();
    let mut j: usize = n;
    while j > 0
        invariant
            j <= n,
            n == s@.len(),
            forall|k: int| j <= k < n ==> s@[k] != c,
        decreases j,
    {
        if s.get_char(j - 1) == c {
            proof {
                lemma_last_index_at(s@, c, j - 1);
            }
            return Some(j - 1);
        }
        j -= 1;
    }
    proof {
        lemma_last_index_none(s@, c);
    }
    None
}

// ───────────────────────── file-name splitting ─────────────────────────

/// The part of a file name before its last dot, where a dot at index zero
/// does not count as an extension separator.
pub open spec fn stem_of(name: Seq<char>) -> Seq<char> {
    let d = last_index_of_char(name, '.');
    if d >= 1 {
        name.subrange(0, d)
    } else {
        name
    }
}

/// The extension after the last dot, or empty when there is none.
pub open spec fn ext_of(name: Seq<char>) -> Seq<char> {
    let d = last_index_of_char(name, '.');
    if d >= 1 {
        name.subrange(d + 1, name.len() as int)
    } else {
        Seq::<char>::empty()
    }
}

/// Splits a file name into stem and extension at the last dot; names whose
/// only dot is the leading character keep the whole name as stem.
pub fn split_file_name(file_name: &str) -> (r: (String, String))
    ensures
        r.0@ == stem_of(file_name@),
        r.1@ == ext_of(file_name@),
{
    proof {
        lemma_last_index_bounds(file_name@, '.');
    }
    let n = file_name.unicode_len();
    match last_index_of(file_name, '.') {
        Some(d) => {
            if d >= 1 {
                (
                    file_name.substring_char(0, d).to_owned(),
                    file_name.substring_char(d + 1, n).to_owned(),
                )
            } else {
                (file_name.to_owned(), String::new())
            }
        },
        None => (file_name.to_owned(), String::new()),
    }
}

// ───────────────────────── duplicate path construction ─────────────────────────

/// The duplicate name: `-conflict-<timestamp>` inserted before the
/// extension, or appended when there is none.
pub open spec fn duplicate_file_name(name: Seq<char>, ts: Seq<char>) -> Seq<char> {
    if ext_of(name).len() == 0 {
        stem_of(name) + "-conflict-"@ + ts
    } else {
        stem_of(name) + "-conflict-"@ + ts + "."@ + ext_of(name)
    }
}

/// The directory part of a slash-separated relative path, including the
/// trailing slash; empty when the path has no slash.
pub open spec fn path_dir(p: Seq<char>) -> Seq<char> {
    let ls = last_index_of_char(p, '/');
    if ls >= 0 {
        p.subrange(0, ls + 1)
    } else {
        Seq::<char>::empty()
    }
}

/// The final component of a slash-separated relative path.
pub open spec fn path_file_name(p: Seq<char>) -> Seq<char> {
    let ls = last_index_of_char(p, '/');
    if ls >= 0 {
        p.subrange(ls + 1, p.len() as int)
    } else {
        p
    }
}

/// A conflicted path can be duplicated only when its final component is a
/// real file name.
pub open spec fn valid_conflict_path(p: Seq<char>) -> bool {
    path_file_name(p).len() > 0 && path_file_name(p) != "."@ && path_file_name(p) != ".."@
}

/// The sibling path that receives the local side of a conflicted file.
pub open spec fn conflict_duplicate_spec(p: Seq<char>, ts: Seq<char>) -> Seq<char> {
    path_dir(p) + duplicate_file_name(path_file_name(p), ts)
}

/// Builds the duplicate path for a conflicted relative path, or rejects a
/// path with no usable final component.
pub fn conflict_duplicate_relative_path(relative_path: &str, timestamp: &str) -> (r: Result<
    String,
    String,
>)
    ensures
        r is Ok <==> valid_conflict_path(relative_path@),
        r is Ok ==> r->Ok_0@ == conflict_duplicate_spec(relative_path@, timestamp@),
        r is Err ==> r->Err_0@ == "Invalid conflicted file path: "@ + relative_path@,
{
    proof {
        lemma_last_index_bounds(relative_path@, '/');
    }
    let n = relative_path.unicode_len();
    let (dir, name) = match last_index_of(relative_path, '/') {
        Some(ls) => {
            (
                relative_path.substring_char(0, ls + 1).to_owned(),
                relative_path.substring_char(ls + 1, n).to_owned(),
            )
        },
        None => {
            proof {
                assert(relative_path@.subrange(0, n as int) =~= relative_path@);
            }
            (String::new(), relative_path.to_owned())
        },
    };
    let name_str = name.as_str();
    if name_str.unicode_len() == 0 || text::str_eq(name_str, ".") || text::str_eq(name_str, "..") {
        let mut msg = String::from_str("Invalid conflicted file path: ");
        msg.append(relative_path);
        return Err(msg);
    }
    let (stem, ext) = split_file_name(name_str);
    let mut duplicate = stem;
    duplicate.append("-conflict-");
    duplicate.append(timestamp);
    if ext.as_str().unicode_len() > 0 {
        duplicate.append(".");
        duplicate.append(ext.as_str());
    }
    let mut result = dir;
    result.append(duplicate.as_str());
    proof {
        assert(result@ =~= conflict_duplicate_spec(relative_path@, timestamp@));
    }
    Ok(result)
}

/// A repository-relative path in the form git expects as an argument:
/// forward slashes only.
pub fn path_to_git_argument(path: &str) -> (r: String)
    ensures
        r@ == text::replace_char_spec(path@, '\\', '/'),
{
    text::replace_char(path, '\\', '/')
}

} // verus!
