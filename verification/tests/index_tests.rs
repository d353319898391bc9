use stik_core::index::{
    extract_snippet, extract_title, note_entry_from_content, NoteIndex,
};

#[test]
fn title_uses_first_non_empty_line() {
    assert_eq!(
        extract_title("\n\nFirst title line\nSecond line"),
        "First title line"
    );
}

#[test]
fn title_skips_break_placeholders() {
    assert_eq!(
        extract_title("<br>\n\n<br />\n\nActual title"),
        "Actual title"
    );
}

#[test]
fn title_falls_back_when_content_is_effectively_empty() {
    assert_eq!(extract_title("<br>\n\n"), "Untitled");
}

#[test]
fn snippet_centers_on_the_match() {
    let content = "aaaaaaaaaaaaaaaaaaaaaaaaaaaaaaaaaaaaaaaa needle bbbb\ncccc";
    let snippet = extract_snippet(content, "NEEDLE", 100);
    assert!(snippet.starts_with("..."));
    assert!(snippet.contains("needle"));
    assert!(!snippet.contains('\n'));

    let no_match = extract_snippet("short text", "absent", 100);
    assert_eq!(no_match, "short text");

    let truncated = extract_snippet("one two three", "absent", 7);
    assert_eq!(truncated, "one two...");
}

#[test]
fn entry_is_derived_from_filename_and_content() {
    let entry = note_entry_from_content(
        "/notes/Inbox/20260206-101530-idea.md",
        "20260206-101530-idea.md",
        "Inbox",
        "Idea title\nbody",
    );
    assert_eq!(entry.title, "Idea title");
    assert_eq!(entry.created, "20260206-101530");
    assert_eq!(entry.preview, "Idea title\nbody");
    assert_eq!(entry.content_len, 15);
}

#[test]
fn index_add_get_remove_and_move() {
    let mut index = NoteIndex::new();
    let a = note_entry_from_content("/n/Inbox/20260101-000000-a.md", "20260101-000000-a.md", "Inbox", "alpha");
    let b = note_entry_from_content("/n/Work/20260202-000000-b.md", "20260202-000000-b.md", "Work", "beta");
    index.add(a);
    index.add(b);

    let got = index.get("/n/Inbox/20260101-000000-a.md").expect("entry present");
    assert_eq!(got.title, "alpha");

    index.move_entry("/n/Inbox/20260101-000000-a.md", "/n/Work/20260101-000000-a.md", "Work");
    assert!(index.get("/n/Inbox/20260101-000000-a.md").is_none());
    let moved = index.get("/n/Work/20260101-000000-a.md").expect("moved entry present");
    assert_eq!(moved.folder, "Work");
    assert_eq!(moved.title, "alpha");

    index.remove("/n/Work/20260101-000000-a.md");
    assert!(index.get("/n/Work/20260101-000000-a.md").is_none());
    assert!(index.get("/n/Work/20260202-000000-b.md").is_some());
}

#[test]
fn listing_is_newest_first_and_filtered() {
    let mut index = NoteIndex::new();
    index.add(note_entry_from_content("/n/Inbox/20240101-000000-x.md", "20240101-000000-x.md", "Inbox", "old"));
    index.add(note_entry_from_content("/n/Inbox/20260101-000000-y.md", "20260101-000000-y.md", "Inbox", "new"));
    index.add(note_entry_from_content("/n/Work/20250101-000000-z.md", "20250101-000000-z.md", "Work", "mid"));

    let all = index.list(None);
    assert_eq!(all.len(), 3);
    assert_eq!(all[0].title, "new");
    assert_eq!(all[1].title, "mid");
    assert_eq!(all[2].title, "old");

    let inbox = index.list(Some("Inbox"));
    assert_eq!(inbox.len(), 2);
    assert_eq!(inbox[0].title, "new");
    assert_eq!(inbox[1].title, "old");
}
