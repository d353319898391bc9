//! Process-wide UI state.  The host keeps one value of this behind its own
//! lock; every mutation is a verified method or function here.

use vstd::prelude::*;

verus! {

use vstd::string::StringExecFns;

/// Width of the settings window.
pub const SETTINGS_WINDOW_WIDTH: u64 = 860;

/// Minimum width of the settings window; wide enough for its full menu bar.
pub const SETTINGS_WINDOW_MIN_WIDTH: u64 = 760;

/// The note most recently saved, so shortcuts can reopen it.
pub struct LastSavedNote {
    pub path: String,
    pub folder: String,
}

/// A note currently open in a viewing window.
pub struct ViewingNoteContent {
    pub id: String,
    pub content: String,
    pub folder: String,
    pub path: String,
}

/// Live application state: shortcut bindings, open viewing windows, window
/// focus bookkeeping, and the last saved note.
pub struct AppState {
    pub shortcut_to_folder: Vec<(String, String)>,
    pub shortcut_to_action: Vec<(String, String)>,
    pub viewing_notes: Vec<ViewingNoteContent>,
    pub previous_focused_window: Option<String>,
    pub postit_was_visible: bool,
    pub last_saved_note: Option<LastSavedNote>,
}

impl AppState {
    /// The empty state the process starts with.
    pub fn new() -> (r: AppState)
        ensures
            r.shortcut_to_folder@.len() == 0,
            r.shortcut_to_action@.len() == 0,
            r.viewing_notes@.len() == 0,
            r.previous_focused_window is None,
            !r.postit_was_visible,
            r.last_saved_note is None,
    {
        AppState {
            shortcut_to_folder: Vec::new(),
            shortcut_to_action: Vec::new(),
            viewing_notes: Vec::new(),
            previous_focused_window: None,
            postit_was_visible: false,
            last_saved_note: None,
        }
    }
}

/// Records the note that was just saved so the reopen-last-note shortcut
/// can find it.
pub fn remember_last_note(state: &mut AppState, path: &str, folder: &str)
    ensures
        final(state).last_saved_note matches Some(n) && n.path@ == path@ && n.folder@ == folder@,
        final(state).shortcut_to_folder == old(state).shortcut_to_folder,
        final(state).shortcut_to_action == old(state).shortcut_to_action,
        final(state).viewing_notes == old(state).viewing_notes,
        final(state).previous_focused_window == old(state).previous_focused_window,
        final(state).postit_was_visible == old(state).postit_was_visible,
{
    state.last_saved_note = Some(
        LastSavedNote { path: path.to_owned(), folder: folder.to_owned() },
    );
}

} // verus!
