use stik_core::ai::{check_ai_enabled, is_available, DarwinKitStatus};
use stik_core::share::build_clipboard_payload;

#[test]
fn renders_heading_and_paragraph() {
    let payload = build_clipboard_payload("# Title\n\nhello world".to_string()).unwrap();
    assert!(payload.html.contains("<h1>Title</h1>"));
    assert!(payload.html.contains("<p>hello world</p>"));
    assert_eq!(payload.plain_text, "# Title\n\nhello world");
}

#[test]
fn renders_basic_inline_markdown() {
    let payload =
        build_clipboard_payload("This has **bold**, *italic*, and `code`.".to_string()).unwrap();
    assert!(payload.html.contains("<strong>bold</strong>"));
    assert!(payload.html.contains("<em>italic</em>"));
    assert!(payload.html.contains("<code>code</code>"));
}

#[test]
fn renders_unordered_list_items() {
    let payload = build_clipboard_payload("- one\n- two".to_string()).unwrap();
    assert!(payload.html.contains("<ul>"));
    assert!(payload.html.contains("<li>one</li>"));
    assert!(payload.html.contains("<li>two</li>"));
    assert!(payload.html.contains("</ul>"));
}

#[test]
fn assistant_calls_are_gated() {
    let down = DarwinKitStatus { ready: false, version: None, capabilities: vec![] };
    let up = DarwinKitStatus {
        ready: true,
        version: Some("1.0".to_string()),
        capabilities: vec!["llm".to_string()],
    };
    assert!(!is_available(&down));
    assert!(is_available(&up));
    assert_eq!(
        check_ai_enabled(false, &up).unwrap_err(),
        "AI features are disabled in settings"
    );
    assert_eq!(
        check_ai_enabled(true, &down).unwrap_err(),
        "DarwinKit sidecar not available"
    );
    assert!(check_ai_enabled(true, &up).is_ok());
}
