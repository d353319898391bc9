//! Note content rules: when a note counts as empty, how a file-name slug is
//! derived from content, and how image attachments are recognised and
//! referenced.

use vstd::prelude::*;
use base64::Engine;
use crate::text;
use crate::index;

verus! {

use vstd::string::StrSliceExecFns;
use vstd::string::StringExecFns;

#[derive(Debug, Clone)]
pub struct NoteSaved {
    pub path: String,
    pub folder: String,
    pub filename: String,
}

#[derive(Debug, Clone)]
pub struct NoteInfo {
    pub path: String,
    pub filename: String,
    pub folder: String,
    pub content: String,
    pub created: String,
}

#[derive(Debug, Clone)]
pub struct SearchResult {
    pub path: String,
    pub filename: String,
    pub folder: String,
    pub title: String,
    pub snippet: String,
    pub created: String,
}

// ───────────────────────── emptiness ─────────────────────────

/// Blank, or only an HTML break placeholder after trimming.
pub open spec fn line_blank(l: Seq<char>) -> bool {
    text::trim_spec(l).len() == 0 || index::is_break_placeholder(text::trim_spec(l))
}

/// A note whose every line is blank carries no content worth saving.
pub open spec fn effectively_empty(content: Seq<char>) -> bool {
    forall|i: int|
        0 <= i < text::lines_spec(content).len() ==> line_blank(
            #[trigger] text::lines_spec(content)[i],
        )
}

pub fn is_effectively_empty_markdown(content: &str) -> (r: bool)
    ensures
        r == effectively_empty(content@),
{
    let lines = text::split_lines(content);
    let ghost lv = lines.deep_view();
    let mut i: usize = 0;
    while i < lines.len()
        invariant
            i <= lines.len(),
            lines.deep_view() == lv,
            lv == text::lines_spec(content@),
            lv.len() == lines.len(),
            forall|k: int| 0 <= k < i ==> line_blank(#[trigger] lv[k]),
        decreases lines.len() - i,
    {
        proof {
            assert(lv[i as int] == lines[i as int]@);
        }
        let t = text::trim(lines[i].as_str());
        if t.as_str().unicode_len() > 0 && !index::is_break_placeholder_line(t.as_str()) {
            return false;
        }
        i += 1;
    }
    true
}

// ───────────────────────── slugs ─────────────────────────

pub open spec fn is_ascii_alnum(c: char) -> bool {
    ('0' <= c && c <= '9') || ('a' <= c && c <= 'z') || ('A' <= c && c <= 'Z')
}

fn char_is_alnum(c: char) -> (r: bool)
    ensures
        r == is_ascii_alnum(c),
{
    ('0' <= c && c <= '9') || ('a' <= c && c <= 'z') || ('A' <= c && c <= 'Z')
}

/// The content with everything but letters, digits and whitespace dropped.
pub open spec fn slug_cleaned(s: Seq<char>) -> Seq<char>
    decreases s.len(),
{
    if s.len() == 0 {
        Seq::<char>::empty()
    } else {
        let rest = slug_cleaned(s.drop_last());
        let c = s[s.len() - 1];
        if is_ascii_alnum(c) || text::is_space_char(c) {
            rest.push(c)
        } else {
            rest
        }
    }
}

/// The slug of a note's content: its first five words (letters and digits
/// only), dash-joined, lowercased and cut to forty characters; "note" when
/// nothing remains.
pub open spec fn slug_spec(content: Seq<char>) -> Seq<char> {
    let w = text::words_spec(slug_cleaned(content));
    let taken = if w.len() <= 5 {
        w
    } else {
        w.take(5)
    };
    let joined = text::take_chars(text::lower_seq(text::join_char_spec(taken, '-')), 40);
    if joined.len() == 0 {
        "note"@
    } else {
        joined
    }
}

pub fn generate_slug(content: &str) -> (r: String)
    ensures
        r@ == slug_spec(content@),
{
    let n = content.unicode_len();
    let mut cleaned = String::new();
    let mut i: usize = 0;
    while i < n
        invariant
            i <= n,
            n == content@.len(),
            cleaned@ == slug_cleaned(content@.subrange(0, i as int)),
        decreases n - i,
    {
        let c = content.get_char(i);
        proof {
            assert(content@.subrange(0, i + 1 as int).drop_last() =~= content@.subrange(
                0,
                i as int,
            ));
            assert(content@.subrange(0, i + 1 as int).last() == content@[i as int]);
        }
        if char_is_alnum(c) || text::char_is_space(c) {
            text::push_char(&mut cleaned, c);
        }
        i += 1;
    }
    proof {
        assert(content@.subrange(0, n as int) =~= content@);
    }
    let words = text::split_words(cleaned.as_str());
    let mut taken: Vec<String> = Vec::new();
    let mut j: usize = 0;
    let limit: usize = if words.len() <= 5 {
        words.len()
    } else {
        5
    };
    while j < limit
        invariant
            j <= limit,
            limit <= words.len(),
            limit == if words.deep_view().len() <= 5 {
                words.deep_view().len() as int
            } else {
                5
            },
            taken.deep_view() == words.deep_view().take(j as int),
        decreases limit - j,
    {
        proof {
            assert(words.deep_view()[j as int] == words[j as int]@);
            assert(words.deep_view().take(j + 1 as int) =~= words.deep_view().take(j as int).push(
                words.deep_view()[j as int],
            ));
        }
        let w = words[j].clone();
        taken.push(w);
        j += 1;
    }
    proof {
        if words.deep_view().len() <= 5 {
            assert(words.deep_view().take(words.deep_view().len() as int) =~= words.deep_view());
        }
    }
    let joined = text::join_strings(&taken, '-');
    let lowered = text::to_lowercase(joined.as_str());
    let slug = text::truncate_chars(lowered.as_str(), 40);
    if slug.as_str().unicode_len() == 0 {
        String::from_str("note")
    } else {
        slug
    }
}

// ───────────────────────── image attachments ─────────────────────────

/// The file extension chosen for an image payload from its data-URL prefix;
/// png when nothing else matches.
pub open spec fn image_ext_spec(data: Seq<char>) -> Seq<char> {
    let l = text::lower_seq(data);
    if text::has_prefix(l, "data:image/jpeg"@) || text::has_prefix(l, "data:image/jpg"@) {
        "jpg"@
    } else if text::has_prefix(l, "data:image/gif"@) {
        "gif"@
    } else if text::has_prefix(l, "data:image/webp"@) {
        "webp"@
    } else {
        "png"@
    }
}

pub fn detect_image_ext(data: &str) -> (r: &'static str)
    ensures
        r@ == image_ext_spec(data@),
{
    let lower = text::to_lowercase(data);
    let l = lower.as_str();
    if text::starts_with_str(l, "data:image/jpeg") || text::starts_with_str(l, "data:image/jpg") {
        "jpg"
    } else if text::starts_with_str(l, "data:image/gif") {
        "gif"
    } else if text::starts_with_str(l, "data:image/webp") {
        "webp"
    } else {
        "png"
    }
}

/// The image file extensions notes may reference.
pub fn is_supported_image_ext(ext: &str) -> (r: bool)
    ensures
        r == (ext@ == "png"@ || ext@ == "jpg"@ || ext@ == "jpeg"@ || ext@ == "gif"@ || ext@
            == "webp"@ || ext@ == "svg"@ || ext@ == "bmp"@ || ext@ == "avif"@),
{
    text::str_eq(ext, "png") || text::str_eq(ext, "jpg") || text::str_eq(ext, "jpeg")
        || text::str_eq(ext, "gif") || text::str_eq(ext, "webp") || text::str_eq(ext, "svg")
        || text::str_eq(ext, "bmp") || text::str_eq(ext, "avif")
}

/// What the standard base64 decoder yields for a string: the decoded bytes,
/// or nothing when the string is not valid base64.  The outcome depends on
/// the string alone.
pub uninterp spec fn base64_decoded(s: Seq<char>) -> Option<Seq<u8>>;

/// Relies on base64's standard-alphabet engine: decodes exactly the valid
/// base64 strings, a pure function of the input; the error case carries the
/// decoder's own diagnostic behind a fixed prefix.
#[verifier::external_body]
fn decode_base64(s: &str) -> (r: Result<Vec<u8>, String>)
    ensures
        r is Ok <==> base64_decoded(s@) is Some,
        r is Ok ==> r->Ok_0@ == base64_decoded(s@)->0,
        r is Err ==> text::has_prefix(r->Err_0@, "Invalid base64: "@),
{
    base64::engine::general_purpose::STANDARD
        .decode(s)
        .map_err(|e| format!("Invalid base64: {}", e))
}

/// The base64 body of an image payload: everything after the first comma of
/// a data URL, or the whole string when there is no comma.
pub open spec fn image_raw_payload(data: Seq<char>) -> Seq<char> {
    let ci = text::first_index_of_char(data, ',');
    if ci >= 0 {
        data.skip(ci + 1)
    } else {
        data
    }
}

/// Decodes a pasted image payload: the extension chosen from its data-URL
/// prefix, and the decoded bytes of its base64 body.
pub fn decode_image_payload(image_data: &str) -> (r: Result<(String, Vec<u8>), String>)
    ensures
        r is Ok <==> base64_decoded(image_raw_payload(image_data@)) is Some,
        r is Ok ==> r->Ok_0.0@ == image_ext_spec(image_data@) && r->Ok_0.1@ == base64_decoded(
            image_raw_payload(image_data@),
        )->0,
        r is Err ==> text::has_prefix(r->Err_0@, "Invalid base64: "@),
{
    let ext = detect_image_ext(image_data);
    let n = image_data.unicode_len();
    let raw = match text::first_index_of(image_data, ',') {
        Some(ci) => image_data.substring_char(ci + 1, n),
        None => image_data,
    };
    proof {
        assert(raw@ =~= image_raw_payload(image_data@));
    }
    match decode_base64(raw) {
        Ok(bytes) => Ok((ext.to_owned(), bytes)),
        Err(e) => Err(e),
    }
}

/// A character that ends an asset-file reference.
pub open spec fn is_asset_terminator(c: char) -> bool {
    c == ')' || c == '"' || c == '\'' || text::is_space_char(c)
}

fn char_is_asset_terminator(c: char) -> (r: bool)
    ensures
        r == is_asset_terminator(c),
{
    c == ')' || c == '"' || c == '\'' || text::char_is_space(c)
}

/// Collects the file names referenced as `.assets/<name>` in the content.
/// Every returned name is non-empty, free of reference terminators, and
/// occurs in the content right after an `.assets/` marker.
pub fn extract_asset_filenames(content: &str) -> (r: Vec<String>)
    ensures
        forall|k: int|
            #![trigger r.deep_view()[k]]
            0 <= k < r.deep_view().len() ==> ({
                let name = r.deep_view()[k];
                &&& name.len() > 0
                &&& (forall|c: int| 0 <= c < name.len() ==> !is_asset_terminator(#[trigger] name[c]))
                &&& text::contains_seq(content@, ".assets/"@ + name)
            }),
{
    let n = content.unicode_len();
    let mut out: Vec<String> = Vec::new();
    let mut cursor: usize = 0;
    while cursor < n
        invariant
            cursor <= n,
            n == content@.len(),
            forall|k: int|
                #![trigger out.deep_view()[k]]
                0 <= k < out.deep_view().len() ==> ({
                    let name = out.deep_view()[k];
                    &&& name.len() > 0
                    &&& (forall|c: int|
                        0 <= c < name.len() ==> !is_asset_terminator(#[trigger] name[c]))
                    &&& text::contains_seq(content@, ".assets/"@ + name)
                }),
        decreases n - cursor,
    {
        let remaining = content.substring_char(cursor, n);
        match text::find_str(remaining, ".assets/") {
            None => {
                return out;
            },
            Some(p) => {
                proof {
                    reveal_strlit(".assets/");
                    assert(".assets/"@.len() == 8);
                    assert(cursor + p + 8 <= n);
                }
                // the name starts right after the marker
                let name_start = cursor + p + 8;
                let mut e = name_start;
                while e < n && !char_is_asset_terminator(content.get_char(e))
                    invariant
                        name_start <= e <= n,
                        n == content@.len(),
                        forall|c: int|
                            name_start <= c < e ==> !is_asset_terminator(#[trigger] content@[c]),
                    decreases n - e,
                {
                    e += 1;
                }
                let name = content.substring_char(name_start, e).to_owned();
                if name.as_str().unicode_len() > 0 {
                    let ghost old_out = out.deep_view();
                    let ghost nm = name@;
                    proof {
                        // the marker matches inside the remaining suffix, so
                        // marker-plus-name matches inside the whole content
                        reveal_strlit(".assets/");
                        let rem = content@.subrange(cursor as int, n as int);
                        assert(rem.subrange(p as int, p + 8) == ".assets/"@);
                        let at = cursor + p;
                        assert forall|q: int| 0 <= q < 8 implies content@[at + q]
                            == ".assets/"@[q] by {
                            assert(rem.subrange(p as int, p + 8)[q] == rem[p + q]);
                            assert(rem[p + q] == content@[cursor + p + q]);
                        }
                        assert(nm =~= content@.subrange(name_start as int, e as int));
                        assert(content@.subrange(at as int, at + 8 + nm.len() as int)
                            =~= ".assets/"@ + nm);
                        assert(text::matches_at(content@, at as int, ".assets/"@ + nm));
                        assert(text::contains_seq(content@, ".assets/"@ + nm));
                    }
                    out.push(name);
                    proof {
                        assert forall|k: int|
                            #![trigger out.deep_view()[k]]
                            0 <= k < out.deep_view().len() implies ({
                            let nm2 = out.deep_view()[k];
                            &&& nm2.len() > 0
                            &&& (forall|c: int|
                                0 <= c < nm2.len() ==> !is_asset_terminator(#[trigger] nm2[c]))
                            &&& text::contains_seq(content@, ".assets/"@ + nm2)
                        }) by {
                            if k < old_out.len() {
                                assert(out.deep_view()[k] == old_out[k]);
                            } else {
                                assert(out.deep_view()[k] == nm);
                            }
                        }
                    }
                }
                // continue the scan after this reference; the marker is
                // eight characters, so the cursor always advances
                cursor = e;
            },
        }
    }
    out
}

} // verus!
