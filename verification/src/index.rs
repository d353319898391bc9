//! The in-memory note index: one entry per note file, keyed by absolute
//! path, with title and preview derived from the note's content.
//!
//! Reading files from disk is the host's job; the index itself only stores
//! and queries entries, and the derivation of an entry from a note's
//! content is a pure function here.

use vstd::prelude::*;
use crate::text;

verus! {

use vstd::string::StrSliceExecFns;
use vstd::string::StringExecFns;

/// Characters of content kept as the entry's preview.
pub const PREVIEW_LENGTH: usize = 150;

/// Seconds after which a built index counts as stale.
pub const STALE_SECONDS: u64 = 60;

/// Whether the index must be rebuilt before serving a listing: it has never
/// been built, or its last build is older than the staleness window.
pub fn needs_rebuild(seconds_since_build: Option<u64>) -> (r: bool)
    ensures
        (match seconds_since_build {
            Some(t) => r == (t > STALE_SECONDS),
            None => r,
        }),
{
    match seconds_since_build {
        Some(t) => t > STALE_SECONDS,
        None => true,
    }
}

#[derive(Debug, Clone)]
pub struct NoteEntry {
    pub path: String,
    pub filename: String,
    pub folder: String,
    pub title: String,
    pub preview: String,
    pub created: String,
    pub content_len: usize,
}

impl NoteEntry {
    /// A field-for-field copy.
    pub fn duplicate(&self) -> (r: NoteEntry)
        ensures
            r == *self,
    {
        NoteEntry {
            path: self.path.clone(),
            filename: self.filename.clone(),
            folder: self.folder.clone(),
            title: self.title.clone(),
            preview: self.preview.clone(),
            created: self.created.clone(),
            content_len: self.content_len,
        }
    }
}

// ───────────────────────── title extraction ─────────────────────────

/// A line that is only an HTML break placeholder, in any casing.
pub open spec fn is_break_placeholder(l: Seq<char>) -> bool {
    text::lower_seq(l) == text::lower_seq("<br>"@) || text::lower_seq(l) == text::lower_seq(
        "<br/>"@,
    ) || text::lower_seq(l) == text::lower_seq("<br />"@)
}

pub fn is_break_placeholder_line(line: &str) -> (r: bool)
    ensures
        r == is_break_placeholder(line@),
{
    text::eq_ignore_case(line, "<br>") || text::eq_ignore_case(line, "<br/>")
        || text::eq_ignore_case(line, "<br />")
}

/// The first trimmed line that is neither blank nor a break placeholder,
/// cut to 120 characters; "Untitled" when there is none.
pub open spec fn title_from_lines(lines: Seq<Seq<char>>) -> Seq<char>
    decreases lines.len(),
{
    if lines.len() == 0 {
        "Untitled"@
    } else {
        let t = text::trim_spec(lines[0]);
        if t.len() > 0 && !is_break_placeholder(t) {
            text::take_chars(t, 120)
        } else {
            title_from_lines(lines.drop_first())
        }
    }
}

pub open spec fn extract_title_spec(content: Seq<char>) -> Seq<char> {
    title_from_lines(text::lines_spec(content))
}

pub fn extract_title(content: &str) -> (r: String)
    ensures
        r@ == extract_title_spec(content@),
{
    let lines = text::split_lines(content);
    let ghost lv = lines.deep_view();
    let mut i: usize = 0;
    proof {
        assert(lv.skip(0) =~= lv);
    }
    while i < lines.len()
        invariant
            i <= lines.len(),
            lines.deep_view() == lv,
            lv == text::lines_spec(content@),
            lv.len() == lines.len(),
            title_from_lines(lv) == title_from_lines(lv.skip(i as int)),
        decreases lines.len() - i,
    {
        proof {
            assert(lv.skip(i as int)[0] == lv[i as int]);
            assert(lv.skip(i as int).drop_first() =~= lv.skip(i + 1 as int));
            assert(lv[i as int] == lines[i as int]@);
        }
        let t = text::trim(lines[i].as_str());
        if t.as_str().unicode_len() > 0 && !is_break_placeholder_line(t.as_str()) {
            return text::truncate_chars(t.as_str(), 120);
        }
        i += 1;
    }
    proof {
        assert(lv.skip(lines.len() as int) =~= Seq::<Seq<char>>::empty());
    }
    String::from_str("Untitled")
}

// ───────────────────────── snippet extraction ─────────────────────────

/// The snippet around the first case-insensitive match of `query`, with
/// newlines flattened and ellipses marking elided content.
pub fn extract_snippet(content: &str, query: &str, max_len: usize) -> (r: String)
    ensures
        !text::contains_seq(text::lower_seq(content@), text::lower_seq(query@)) ==> ({
            let end = if max_len <= content@.len() {
                max_len as int
            } else {
                content@.len() as int
            };
            &&& (end < content@.len() ==> r@ == text::replace_char_spec(
                content@.subrange(0, end),
                '\n',
                ' ',
            ) + "..."@)
            &&& (end == content@.len() ==> r@ == text::replace_char_spec(
                content@.subrange(0, end),
                '\n',
                ' ',
            ))
        }),
        text::contains_seq(text::lower_seq(content@), text::lower_seq(query@)) ==> (exists|
            pos: int,
        |
            {
                &&& text::matches_at(text::lower_seq(content@), pos, text::lower_seq(query@))
                &&& (forall|k: int|
                    0 <= k < pos ==> !text::matches_at(
                        text::lower_seq(content@),
                        k,
                        text::lower_seq(query@),
                    ))
                &&& ({
                    let start = if pos >= 30 {
                        pos - 30
                    } else {
                        0
                    };
                    let end = if pos + query@.len() + 50 <= content@.len() {
                        pos + query@.len() + 50
                    } else {
                        content@.len() as int
                    };
                    let body = text::replace_char_spec(content@.subrange(start, end), '\n', ' ');
                    let head = if start > 0 {
                        "..."@ + body
                    } else {
                        body
                    };
                    r@ == (if end < content@.len() {
                        head + "..."@
                    } else {
                        head
                    })
                })
            }),
{
    let content_lower = text::to_lowercase(content);
    let query_lower = text::to_lowercase(query);
    let n = content.unicode_len();
    proof {
        assert(text::lower_seq(content@).len() == content@.len());
        assert(text::lower_seq(query@).len() == query@.len());
    }
    match text::find_str(content_lower.as_str(), query_lower.as_str()) {
        Some(pos) => {
            let qn = query.unicode_len();
            let start: usize = if pos >= 30 {
                pos - 30
            } else {
                0
            };
            let end: usize = if pos <= n && qn <= n - pos && 50 <= n - pos - qn {
                pos + qn + 50
            } else {
                n
            };
            proof {
                assert(end == if pos + query@.len() + 50 <= content@.len() {
                    pos + query@.len() + 50
                } else {
                    content@.len() as int
                });
            }
            let body = content.substring_char(start, end);
            let flattened = text::replace_char(body, '\n', ' ');
            let mut out = String::new();
            if start > 0 {
                out.append("...");
            }
            out.append(flattened.as_str());
            if end < n {
                out.append("...");
            }
            out
        },
        None => {
            let end: usize = if max_len <= n {
                max_len
            } else {
                n
            };
            let body = content.substring_char(0, end);
            let mut out = text::replace_char(body, '\n', ' ');
            if end < n {
                out.append("...");
            }
            out
        },
    }
}

// ───────────────────────── entry derivation ─────────────────────────

/// The created-at marker taken from a note's file name: its first two
/// dash-separated pieces.
pub open spec fn created_from_filename(filename: Seq<char>) -> Seq<char> {
    let p = text::split_char_spec(filename, '-');
    if p.len() == 1 {
        p[0]
    } else {
        p[0] + "-"@ + p[1]
    }
}

/// Derives the index entry for a note from its path, file name, folder and
/// content.
pub fn note_entry_from_content(path: &str, filename: &str, folder: &str, content: &str) -> (r:
    NoteEntry)
    ensures
        r.path@ == path@,
        r.filename@ == filename@,
        r.folder@ == folder@,
        r.title@ == extract_title_spec(content@),
        r.preview@ == text::take_chars(content@, PREVIEW_LENGTH as int),
        r.created@ == created_from_filename(filename@),
        r.content_len == content@.len(),
{
    let pieces = text::split_char(filename, '-');
    let created = if pieces.len() == 1 {
        proof {
            assert(pieces.deep_view()[0] == pieces[0int]@);
        }
        pieces[0].clone()
    } else {
        proof {
            assert(pieces.deep_view()[0] == pieces[0int]@);
            assert(pieces.deep_view()[1] == pieces[1int]@);
        }
        let mut c = pieces[0].clone();
        c.append("-");
        c.append(pieces[1].as_str());
        c
    };
    NoteEntry {
        path: path.to_owned(),
        filename: filename.to_owned(),
        folder: folder.to_owned(),
        title: extract_title(content),
        preview: text::truncate_chars(content, PREVIEW_LENGTH),
        created,
        content_len: content.unicode_len(),
    }
}

// ───────────────────────── ordering by created marker ─────────────────────────

/// Lexicographic order on character sequences (by code point, which for
/// these timestamp-prefixed markers is chronological order).
pub open spec fn lex_lt(a: Seq<char>, b: Seq<char>) -> bool
    decreases a.len(),
{
    if b.len() == 0 {
        false
    } else if a.len() == 0 {
        true
    } else if a[0] != b[0] {
        (a[0] as u32) < (b[0] as u32)
    } else {
        lex_lt(a.drop_first(), b.drop_first())
    }
}

proof fn lemma_lex_skip(a: Seq<char>, b: Seq<char>, i: int)
    requires
        0 <= i <= a.len(),
        i <= b.len(),
        forall|k: int| 0 <= k < i ==> a[k] == b[k],
    ensures
        lex_lt(a, b) == lex_lt(a.skip(i), b.skip(i)),
    decreases i,
{
    if i > 0 {
        if b.len() == 0 || a.len() == 0 {
        } else {
            assert(a[0] == b[0]);
            assert(a.drop_first().skip(i - 1) =~= a.skip(i));
            assert(b.drop_first().skip(i - 1) =~= b.skip(i));
            lemma_lex_skip(a.drop_first(), b.drop_first(), i - 1);
        }
    } else {
        assert(a.skip(0) =~= a);
        assert(b.skip(0) =~= b);
    }
}

proof fn lemma_lex_lt_irrefl(a: Seq<char>)
    ensures
        !lex_lt(a, a),
    decreases a.len(),
{
    if a.len() > 0 {
        lemma_lex_lt_irrefl(a.drop_first());
    }
}

proof fn lemma_lex_lt_trans(a: Seq<char>, b: Seq<char>, c: Seq<char>)
    requires
        lex_lt(a, b),
        lex_lt(b, c),
    ensures
        lex_lt(a, c),
    decreases a.len() + b.len() + c.len(),
{
    if b.len() == 0 || c.len() == 0 {
    } else if a.len() == 0 {
    } else if a[0] == b[0] && b[0] == c[0] {
        lemma_lex_lt_trans(a.drop_first(), b.drop_first(), c.drop_first());
    } else {
    }
}

pub fn str_lt(a: &str, b: &str) -> (r: bool)
    ensures
        r == lex_lt(a@, b@),
{
    let an = a.unicode_len();
    let bn = b.unicode_len();
    let min: usize = if an <= bn {
        an
    } else {
        bn
    };
    let mut i: usize = 0;
    while i < min
        invariant
            i <= min,
            an == a@.len(),
            bn == b@.len(),
            min == if an <= bn {
                an
            } else {
                bn
            },
            forall|k: int| 0 <= k < i ==> a@[k] == b@[k],
        decreases min - i,
    {
        let ca = a.get_char(i);
        let cb = b.get_char(i);
        if ca != cb {
            proof {
                lemma_lex_skip(a@, b@, i as int);
                assert(a@.skip(i as int)[0] == a@[i as int]);
                assert(b@.skip(i as int)[0] == b@[i as int]);
            }
            return (ca as u32) < (cb as u32);
        }
        i += 1;
    }
    proof {
        lemma_lex_skip(a@, b@, min as int);
    }
    an < bn
}

// ───────────────────────── the index ─────────────────────────

pub open spec fn has_path(s: Seq<NoteEntry>, p: Seq<char>) -> bool {
    exists|i: int| 0 <= i < s.len() && (#[trigger] s[i]).path@ == p
}

/// `e` is one of the entries of `s`.
pub open spec fn contains_entry(s: Seq<NoteEntry>, e: NoteEntry) -> bool {
    exists|i: int| 0 <= i < s.len() && #[trigger] s[i] == e
}

/// Every entry of `a` is an entry of `b`.
pub open spec fn entries_subset(a: Seq<NoteEntry>, b: Seq<NoteEntry>) -> bool {
    forall|j: int| #![trigger a[j]] 0 <= j < a.len() ==> contains_entry(b, a[j])
}

/// No two entries share a path.
pub open spec fn paths_unique(s: Seq<NoteEntry>) -> bool {
    forall|i: int, j: int|
        0 <= i < j < s.len() ==> (#[trigger] s[i]).path@ != (#[trigger] s[j]).path@
}

pub struct NoteIndex {
    pub entries: Vec<NoteEntry>,
}

impl NoteIndex {
    pub open spec fn wf(&self) -> bool {
        paths_unique(self.entries@)
    }

    pub fn new() -> (r: NoteIndex)
        ensures
            r.wf(),
            r.entries@.len() == 0,
    {
        NoteIndex { entries: Vec::new() }
    }

    /// Index of the entry with this path, if present.
    fn find_index(&self, path: &str) -> (r: Option<usize>)
        ensures
            r is Some <==> has_path(self.entries@, path@),
            r is Some ==> r->0 < self.entries@.len() && self.entries@[r->0 as int].path@ == path@,
    {
        let mut i: usize = 0;
        while i < self.entries.len()
            invariant
                i <= self.entries@.len(),
                forall|k: int| 0 <= k < i ==> (#[trigger] self.entries@[k]).path@ != path@,
            decreases self.entries@.len() - i,
        {
            if text::str_eq(self.entries[i].path.as_str(), path) {
                return Some(i);
            }
            i += 1;
        }
        None
    }

    /// Inserts an entry, replacing any entry that had the same path; every
    /// entry with a different path stays, and nothing else appears.
    pub fn add(&mut self, entry: NoteEntry)
        requires
            old(self).wf(),
        ensures
            final(self).wf(),
            contains_entry(final(self).entries@, entry),
            forall|i: int|
                0 <= i < old(self).entries@.len() && (#[trigger] old(self).entries@[i]).path@
                    != entry.path@ ==> contains_entry(final(self).entries@, old(self).entries@[i]),
            forall|j: int|
                #![trigger final(self).entries@[j]]
                0 <= j < final(self).entries@.len() ==> final(self).entries@[j] == entry
                    || contains_entry(old(self).entries@, final(self).entries@[j]),
    {
        let ghost orig = self.entries@;
        match self.find_index(entry.path.as_str()) {
            Some(i) => {
                let _ = self.entries.remove(i);
                let ghost kept = self.entries@;
                proof {
                    assert forall|j: int| 0 <= j < kept.len() implies (#[trigger] kept[j]).path@
                        != entry.path@ by {
                        if j < i {
                            assert(kept[j] == orig[j]);
                        } else {
                            assert(kept[j] == orig[j + 1]);
                        }
                    }
                    assert forall|j1: int, j2: int| 0 <= j1 < j2 < kept.len() implies (
                    #[trigger] kept[j1]).path@ != (#[trigger] kept[j2]).path@ by {
                        let o1: int = if j1 < i {
                            j1
                        } else {
                            j1 + 1
                        };
                        let o2: int = if j2 < i {
                            j2
                        } else {
                            j2 + 1
                        };
                        assert(kept[j1] == orig[o1]);
                        assert(kept[j2] == orig[o2]);
                    }
                }
                self.entries.push(entry);
                proof {
                    let fin = self.entries@;
                    assert(fin[fin.len() - 1] == entry);
                    assert(contains_entry(fin, entry));
                    assert forall|i0: int|
                        0 <= i0 < orig.len() && (#[trigger] orig[i0]).path@
                            != entry.path@ implies contains_entry(fin, orig[i0]) by {
                        if i0 < i {
                            assert(fin[i0] == orig[i0]);
                        } else {
                            assert(i0 != i);
                            assert(fin[i0 - 1] == orig[i0]);
                        }
                    }
                    assert forall|j: int|
                        #![trigger fin[j]]
                        0 <= j < fin.len() implies fin[j] == entry || contains_entry(
                        orig,
                        fin[j],
                    ) by {
                        if j < fin.len() - 1 {
                            if j < i {
                                assert(orig[j] == fin[j]);
                            } else {
                                assert(orig[j + 1] == fin[j]);
                            }
                        }
                    }
                }
            },
            None => {
                let ghost kept = self.entries@;
                self.entries.push(entry);
                proof {
                    let fin = self.entries@;
                    assert(fin[fin.len() - 1] == entry);
                    assert(contains_entry(fin, entry));
                    assert forall|i0: int|
                        0 <= i0 < orig.len() && (#[trigger] orig[i0]).path@
                            != entry.path@ implies contains_entry(fin, orig[i0]) by {
                        assert(fin[i0] == orig[i0]);
                    }
                    assert forall|j: int|
                        #![trigger fin[j]]
                        0 <= j < fin.len() implies fin[j] == entry || contains_entry(
                        orig,
                        fin[j],
                    ) by {
                        if j < fin.len() - 1 {
                            assert(orig[j] == fin[j]);
                        }
                    }
                    assert forall|j1: int, j2: int| 0 <= j1 < j2 < fin.len() implies (
                    #[trigger] fin[j1]).path@ != (#[trigger] fin[j2]).path@ by {
                        if j2 < fin.len() - 1 {
                        } else {
                            assert(fin[j1] == orig[j1]);
                            assert(!has_path(orig, entry.path@));
                        }
                    }
                }
            },
        }
    }

    /// Removes the entry with this path, if any; everything else stays,
    /// and nothing new appears.
    pub fn remove(&mut self, path: &str)
        requires
            old(self).wf(),
        ensures
            final(self).wf(),
            !has_path(final(self).entries@, path@),
            forall|i: int|
                0 <= i < old(self).entries@.len() && (#[trigger] old(self).entries@[i]).path@
                    != path@ ==> contains_entry(final(self).entries@, old(self).entries@[i]),
            entries_subset(final(self).entries@, old(self).entries@),
    {
        let ghost orig = self.entries@;
        match self.find_index(path) {
            Some(i) => {
                let _ = self.entries.remove(i);
                proof {
                    let fin = self.entries@;
                    assert forall|j: int| 0 <= j < fin.len() implies (#[trigger] fin[j]).path@
                        != path@ by {
                        if j < i {
                            assert(fin[j] == orig[j]);
                        } else {
                            assert(fin[j] == orig[j + 1]);
                        }
                    }
                    assert forall|j1: int, j2: int| 0 <= j1 < j2 < fin.len() implies (
                    #[trigger] fin[j1]).path@ != (#[trigger] fin[j2]).path@ by {
                        let o1: int = if j1 < i {
                            j1
                        } else {
                            j1 + 1
                        };
                        let o2: int = if j2 < i {
                            j2
                        } else {
                            j2 + 1
                        };
                        assert(fin[j1] == orig[o1]);
                        assert(fin[j2] == orig[o2]);
                    }
                    assert forall|i0: int|
                        0 <= i0 < orig.len() && (#[trigger] orig[i0]).path@
                            != path@ implies contains_entry(fin, orig[i0]) by {
                        if i0 < i {
                            assert(fin[i0] == orig[i0]);
                        } else {
                            assert(i0 != i);
                            assert(fin[i0 - 1] == orig[i0]);
                        }
                    }
                    assert forall|j: int|
                        #![trigger fin[j]]
                        0 <= j < fin.len() implies contains_entry(orig, fin[j]) by {
                        if j < i {
                            assert(orig[j] == fin[j]);
                        } else {
                            assert(orig[j + 1] == fin[j]);
                        }
                    }
                }
            },
            None => {
                proof {
                    let fin = self.entries@;
                    assert forall|j: int|
                        #![trigger fin[j]]
                        0 <= j < fin.len() implies contains_entry(orig, fin[j]) by {
                        assert(orig[j] == fin[j]);
                    }
                }
            },
        }
    }

    /// Moves the entry at `old_path` to `new_path` under `new_folder`,
    /// keeping its other fields; without an entry at `old_path` nothing
    /// changes.
    pub fn move_entry(&mut self, old_path: &str, new_path: &str, new_folder: &str)
        requires
            old(self).wf(),
        ensures
            final(self).wf(),
            !has_path(old(self).entries@, old_path@) ==> final(self).entries@ == old(self).entries@,
            has_path(old(self).entries@, old_path@) ==> (exists|i: int, j: int|
                {
                    &&& 0 <= i < old(self).entries@.len()
                    &&& (#[trigger] old(self).entries@[i]).path@ == old_path@
                    &&& 0 <= j < final(self).entries@.len()
                    &&& (#[trigger] final(self).entries@[j]).path@ == new_path@
                    &&& final(self).entries@[j].folder@ == new_folder@
                    &&& final(self).entries@[j].filename == old(self).entries@[i].filename
                    &&& final(self).entries@[j].title == old(self).entries@[i].title
                    &&& final(self).entries@[j].preview == old(self).entries@[i].preview
                    &&& final(self).entries@[j].created == old(self).entries@[i].created
                    &&& final(self).entries@[j].content_len == old(self).entries@[i].content_len
                }),
    {
        match self.find_index(old_path) {
            Some(i) => {
                let mut entry = self.entries.remove(i);
                proof {
                    let kept = self.entries@;
                    let orig = old(self).entries@;
                    assert forall|j1: int, j2: int| 0 <= j1 < j2 < kept.len() implies (
                    #[trigger] kept[j1]).path@ != (#[trigger] kept[j2]).path@ by {
                        let o1: int = if j1 < i {
                            j1
                        } else {
                            j1 + 1
                        };
                        let o2: int = if j2 < i {
                            j2
                        } else {
                            j2 + 1
                        };
                        assert(kept[j1] == orig[o1]);
                        assert(kept[j2] == orig[o2]);
                    }
                }
                entry.path = new_path.to_owned();
                entry.folder = new_folder.to_owned();
                let ghost moved = entry;
                self.add(entry);
                proof {
                    let fs = self.entries@;
                    let w = choose|j: int| 0 <= j < fs.len() && #[trigger] fs[j] == moved;
                    assert(fs[w].path@ == new_path@);
                }
            },
            None => {},
        }
    }

    /// A copy of the entry at this path.
    pub fn get(&self, path: &str) -> (r: Option<NoteEntry>)
        ensures
            r is Some <==> has_path(self.entries@, path@),
            r is Some ==> r->0.path@ == path@ && contains_entry(self.entries@, r->0),
    {
        match self.find_index(path) {
            Some(i) => Some(self.entries[i].duplicate()),
            None => None,
        }
    }

    /// The entries (all of them, or one folder's), newest first by their
    /// created marker: exactly the entries that pass the filter, in
    /// descending order of creation.
    pub fn list(&self, folder: Option<&str>) -> (r: Vec<NoteEntry>)
        ensures
            sorted_desc(r@),
            entries_subset(r@, self.entries@),
            forall|i: int|
                #![trigger self.entries@[i]]
                0 <= i < self.entries@.len() && (match folder {
                    Some(f) => self.entries@[i].folder@ == f@,
                    None => true,
                }) ==> contains_entry(r@, self.entries@[i]),
            forall|j: int|
                0 <= j < r@.len() ==> (match folder {
                    Some(f) => (#[trigger] r@[j]).folder@ == f@,
                    None => true,
                }),
    {
        let mut out: Vec<NoteEntry> = Vec::new();
        let mut i: usize = 0;
        while i < self.entries.len()
            invariant
                i <= self.entries@.len(),
                sorted_desc(out@),
                entries_subset(out@, self.entries@),
                forall|k: int|
                    #![trigger self.entries@[k]]
                    0 <= k < i && (match folder {
                        Some(f) => self.entries@[k].folder@ == f@,
                        None => true,
                    }) ==> contains_entry(out@, self.entries@[k]),
                forall|j: int|
                    0 <= j < out@.len() ==> (match folder {
                        Some(f) => (#[trigger] out@[j]).folder@ == f@,
                        None => true,
                    }),
            decreases self.entries@.len() - i,
        {
            let matches_filter = match folder {
                Some(f) => text::str_eq(self.entries[i].folder.as_str(), f),
                None => true,
            };
            if matches_filter {
                let e = self.entries[i].duplicate();
                let ghost old_out = out@;
                insert_sorted(&mut out, e);
                proof {
                    assert forall|j: int|
                        #![trigger out@[j]]
                        0 <= j < out@.len() implies contains_entry(self.entries@, out@[j]) by {
                        if out@[j] == e {
                            assert(self.entries@[i as int] == out@[j]);
                        } else {
                            assert(contains_entry(old_out, out@[j]));
                            let j0 = choose|j0: int|
                                0 <= j0 < old_out.len() && #[trigger] old_out[j0] == out@[j];
                            assert(contains_entry(self.entries@, old_out[j0]));
                        }
                    }
                    assert forall|k: int|
                        #![trigger self.entries@[k]]
                        0 <= k < i + 1 && (match folder {
                            Some(f) => self.entries@[k].folder@ == f@,
                            None => true,
                        }) implies contains_entry(out@, self.entries@[k]) by {
                        if k == i {
                            assert(contains_entry(out@, e));
                        } else {
                            let j0 = choose|j: int|
                                0 <= j < old_out.len() && #[trigger] old_out[j]
                                    == self.entries@[k];
                            assert(contains_entry(out@, old_out[j0]));
                        }
                    }
                    assert forall|j: int| 0 <= j < out@.len() implies (match folder {
                        Some(f) => (#[trigger] out@[j]).folder@ == f@,
                        None => true,
                    }) by {
                        if out@[j] == e {
                            assert(e == self.entries@[i as int]);
                        } else {
                            let j0 = choose|j0: int|
                                0 <= j0 < old_out.len() && #[trigger] old_out[j0] == out@[j];
                            assert(out@[j0] == out@[j0]);
                        }
                    }
                }
            }
            i += 1;
        }
        out
    }
}

/// Newest first: no later entry has a strictly newer created marker.
pub open spec fn sorted_desc(s: Seq<NoteEntry>) -> bool {
    forall|i: int, j: int|
        0 <= i < j < s.len() ==> !lex_lt((#[trigger] s[i]).created@, (#[trigger] s[j]).created@)
}

/// Inserts an entry into a newest-first vector, keeping the order and the
/// existing entries.
fn insert_sorted(out: &mut Vec<NoteEntry>, e: NoteEntry)
    requires
        sorted_desc(old(out)@),
    ensures
        sorted_desc(final(out)@),
        final(out)@.len() == old(out)@.len() + 1,
        contains_entry(final(out)@, e),
        forall|j: int|
            #![trigger final(out)@[j]]
            0 <= j < final(out)@.len() ==> final(out)@[j] == e || contains_entry(
                old(out)@,
                final(out)@[j],
            ),
        forall|j0: int|
            #![trigger old(out)@[j0]]
            0 <= j0 < old(out)@.len() ==> contains_entry(final(out)@, old(out)@[j0]),
{
    // find the first position whose entry is strictly older
    let mut k: usize = 0;
    while k < out.len() && !str_lt(out[k].created.as_str(), e.created.as_str())
        invariant
            k <= out@.len(),
            out@ == old(out)@,
            forall|a: int| 0 <= a < k ==> !lex_lt((#[trigger] out@[a]).created@, e.created@),
        decreases out@.len() - k,
    {
        k += 1;
    }
    let ghost cut_lt = k < out@.len();
    let ghost cut_seq = if k < out@.len() {
        out@[k as int].created@
    } else {
        Seq::<char>::empty()
    };
    proof {
        if cut_lt {
            assert(lex_lt(cut_seq, e.created@));
        }
    }
    let ghost before = out@;
    out.insert(k, e);
    proof {
        assert forall|a: int, b: int| 0 <= a < b < out@.len() implies !lex_lt(
            (#[trigger] out@[a]).created@,
            (#[trigger] out@[b]).created@,
        ) by {
            if b < k {
                assert(out@[a] == before[a]);
                assert(out@[b] == before[b]);
            } else if a < k && b == k {
                assert(out@[a] == before[a]);
                assert(out@[b] == e);
            } else if a < k && b > k {
                assert(out@[a] == before[a]);
                assert(out@[b] == before[b - 1]);
            } else if a == k && b > k {
                // everything past the cut is strictly older than e
                assert(out@[a] == e);
                assert(out@[b] == before[b - 1]);
                assert(cut_lt);
                let ec = e.created@;
                let bc = before[b - 1].created@;
                assert(lex_lt(cut_seq, ec));
                if lex_lt(ec, bc) {
                    if b - 1 > k {
                        assert(!lex_lt(cut_seq, bc));
                        lemma_lex_lt_trans(cut_seq, ec, bc);
                        assert(false);
                    } else {
                        assert(bc == cut_seq);
                        lemma_lex_lt_trans(cut_seq, ec, bc);
                        lemma_lex_lt_irrefl(cut_seq);
                        assert(false);
                    }
                }
            } else {
                assert(out@[a] == before[a - 1]);
                assert(out@[b] == before[b - 1]);
            }
        }
        assert(out@[k as int] == e);
        assert(contains_entry(out@, e));
        assert forall|j: int|
            #![trigger out@[j]]
            0 <= j < out@.len() implies out@[j] == e || contains_entry(before, out@[j]) by {
            if j < k {
                assert(before[j] == out@[j]);
            } else if j > k {
                assert(before[j - 1] == out@[j]);
            }
        }
        assert forall|j0: int|
            #![trigger before[j0]]
            0 <= j0 < before.len() implies contains_entry(out@, before[j0]) by {
            if j0 < k {
                assert(out@[j0] == before[j0]);
            } else {
                assert(out@[j0 + 1] == before[j0]);
            }
        }
    }
}

} // verus!
