use stik_core::state::{
    remember_last_note, AppState, SETTINGS_WINDOW_MIN_WIDTH, SETTINGS_WINDOW_WIDTH,
};

#[test]
fn remember_last_note_updates_state_for_shortcuts() {
    let mut state = AppState::new();
    remember_last_note(&mut state, "/tmp/stik/foo.md", "Inbox");

    let note = state.last_saved_note.as_ref().expect("last note should be set");
    assert_eq!(note.path, "/tmp/stik/foo.md");
    assert_eq!(note.folder, "Inbox");
}

#[test]
fn settings_window_min_width_is_large_enough_for_full_menu_bar() {
    assert!(SETTINGS_WINDOW_MIN_WIDTH >= 760);
    assert!(SETTINGS_WINDOW_WIDTH > SETTINGS_WINDOW_MIN_WIDTH);
}
