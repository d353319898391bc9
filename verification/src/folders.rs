//! Folder-name validation: the safety rules every logical folder name (and in
//! particular the shared sync folder) must pass before it is used as a path
//! component.

use vstd::prelude::*;
use crate::text;

verus! {

use vstd::string::StringExecFns;

/// Per-folder statistics reported to the host application.
#[derive(Debug, Clone)]
pub struct FolderStats {
    pub name: String,
    pub note_count: usize,
}

/// A folder participates in listings only when its trimmed name is non-empty
/// and does not start with a dot.
pub open spec fn visible_folder_name(s: Seq<char>) -> bool {
    text::trim_spec(s).len() > 0 && text::trim_spec(s)[0] != '.'
}

pub fn is_visible_folder_name(name: &str) -> (r: bool)
    ensures
        r == visible_folder_name(name@),
{
    let trimmed = text::trim(name);
    let t = trimmed.as_str();
    if t.unicode_len() == 0 {
        return false;
    }
    t.get_char(0) != '.'
}

/// True when the name contains a path-traversal or separator hazard.
pub open spec fn has_path_hazard(s: Seq<char>) -> bool {
    text::contains_seq(s, ".."@) || text::contains_seq(s, "/"@) || text::contains_seq(s, "\\"@)
        || text::contains_seq(s, "\u{0}"@)
}

/// A name is safe as a folder name when it has no traversal hazard, is not
/// blank, and is not hidden.
pub open spec fn valid_folder_name(s: Seq<char>) -> bool {
    !has_path_hazard(s) && text::trim_spec(s).len() > 0 && visible_folder_name(s)
}

/// Rejects folder names that could escape the notes directory or denote
/// hidden folders; accepts exactly the names `valid_folder_name` accepts.
pub fn validate_name(name: &str) -> (r: Result<(), String>)
    ensures
        r is Ok <==> valid_folder_name(name@),
        r is Err && has_path_hazard(name@) ==> r->Err_0@
            == "Invalid name: must not contain '..', '/', '\\', or null bytes"@,
        r is Err && !has_path_hazard(name@) && text::trim_spec(name@).len() == 0 ==> r->Err_0@
            == "Name cannot be empty"@,
        r is Err && !has_path_hazard(name@) && text::trim_spec(name@).len() > 0 ==> r->Err_0@
            == "Invalid name: hidden folders are not supported"@,
{
    if text::contains_str(name, "..") || text::contains_str(name, "/") || text::contains_str(
        name,
        "\\",
    ) || text::contains_str(name, "\u{0}") {
        return Err(String::from_str(
            "Invalid name: must not contain '..', '/', '\\', or null bytes",
        ));
    }
    if text::trim_is_empty(name) {
        return Err(String::from_str("Name cannot be empty"));
    }
    if !is_visible_folder_name(name) {
        return Err(String::from_str("Invalid name: hidden folders are not supported"));
    }
    Ok(())
}

} // verus!
