use stik_core::folders::{is_visible_folder_name, validate_name};

#[test]
fn rejects_hidden_folder_names() {
    assert!(validate_name(".git").is_err());
    assert!(validate_name(".private").is_err());
}

#[test]
fn folder_visibility_hides_dot_directories() {
    assert!(is_visible_folder_name("Inbox"));
    assert!(!is_visible_folder_name(".git"));
    assert!(!is_visible_folder_name(".cache"));
}

#[test]
fn rejects_traversal_and_separator_hazards() {
    assert_eq!(
        validate_name("a/b").unwrap_err(),
        "Invalid name: must not contain '..', '/', '\\', or null bytes"
    );
    assert!(validate_name("..").is_err());
    assert!(validate_name("a\\b").is_err());
    assert_eq!(validate_name("   ").unwrap_err(), "Name cannot be empty");
    assert_eq!(
        validate_name(".hidden").unwrap_err(),
        "Invalid name: hidden folders are not supported"
    );
    assert!(validate_name("Inbox").is_ok());
    assert!(validate_name("My Notes").is_ok());
}
