use stik_core::apple::{apply_inline_formatting, protobuf_to_markdown, AttributeRun, Checklist, Note, ParagraphStyle};

fn make_note(text: &str, runs: Vec<AttributeRun>) -> Note {
    Note { note_text: Some(text.to_string()), attribute_run: runs }
}

fn simple_run(length: i32) -> AttributeRun {
    AttributeRun {
        length: Some(length),
        paragraph_style: None,
        font: None,
        font_weight: None,
        underlined: None,
        strikethrough: None,
        superscript: None,
        link: None,
        color: None,
        attachment_info: None,
    }
}

fn styled_run(length: i32, style_type: i32) -> AttributeRun {
    AttributeRun {
        length: Some(length),
        paragraph_style: Some(ParagraphStyle {
            style_type: Some(style_type),
            alignment: None,
            indent_amount: None,
            checklist: None,
        }),
        font: None,
        font_weight: None,
        underlined: None,
        strikethrough: None,
        superscript: None,
        link: None,
        color: None,
        attachment_info: None,
    }
}

fn checklist_run(length: i32, done: bool) -> AttributeRun {
    AttributeRun {
        length: Some(length),
        paragraph_style: Some(ParagraphStyle {
            style_type: Some(103),
            alignment: None,
            indent_amount: None,
            checklist: Some(Checklist { uuid: None, done: Some(if done { 1 } else { 0 }) }),
        }),
        font: None,
        font_weight: None,
        underlined: None,
        strikethrough: None,
        superscript: None,
        link: None,
        color: None,
        attachment_info: None,
    }
}

#[test]
fn plain_text_note() {
    let note = make_note("Hello world", vec![simple_run(11)]);
    assert_eq!(protobuf_to_markdown(&note), "Hello world");
}

#[test]
fn title_and_body() {
    let note = make_note(
        "My Title\nSome body text",
        vec![
            styled_run(9, 0),
            simple_run(14),
        ],
    );
    let md = protobuf_to_markdown(&note);
    assert!(md.starts_with("My Title"));
    assert!(md.contains("Some body text"));
}

#[test]
fn headings() {
    let note = make_note(
        "Title\nHeading\nSubheading\n",
        vec![
            styled_run(6, 0),
            styled_run(8, 1),
            styled_run(11, 2),
        ],
    );
    let md = protobuf_to_markdown(&note);
    assert!(md.contains("## Heading"));
    assert!(md.contains("### Subheading"));
}

#[test]
fn bullet_list() {
    let note = make_note(
        "Item one\nItem two\n",
        vec![
            styled_run(9, 100),
            styled_run(9, 100),
        ],
    );
    let md = protobuf_to_markdown(&note);
    assert!(md.contains("- Item one"));
    assert!(md.contains("- Item two"));
}

#[test]
fn numbered_list() {
    let note = make_note(
        "First\nSecond\n",
        vec![
            styled_run(6, 102),
            styled_run(7, 102),
        ],
    );
    let md = protobuf_to_markdown(&note);
    assert!(md.contains("1. First"));
    assert!(md.contains("2. Second"));
}

#[test]
fn checklist() {
    let note = make_note(
        "Done task\nOpen task\n",
        vec![
            checklist_run(10, true),
            checklist_run(10, false),
        ],
    );
    let md = protobuf_to_markdown(&note);
    assert!(md.contains("- [x] Done task"));
    assert!(md.contains("- [ ] Open task"));
}

#[test]
fn bold_and_italic() {
    let note = make_note("bold text", vec![{
        let mut run = simple_run(9);
        run.font_weight = Some(1);
        run
    }]);
    assert_eq!(protobuf_to_markdown(&note), "**bold text**");

    let note = make_note("italic text", vec![{
        let mut run = simple_run(11);
        run.font_weight = Some(2);
        run
    }]);
    assert_eq!(protobuf_to_markdown(&note), "*italic text*");
}

#[test]
fn strikethrough() {
    let note = make_note("deleted", vec![{
        let mut run = simple_run(7);
        run.strikethrough = Some(1);
        run
    }]);
    assert_eq!(protobuf_to_markdown(&note), "~~deleted~~");
}

#[test]
fn link_formatting() {
    let note = make_note("click here", vec![{
        let mut run = simple_run(10);
        run.link = Some("https://example.com".to_string());
        run
    }]);
    assert_eq!(protobuf_to_markdown(&note), "[click here](https://example.com)");
}

#[test]
fn code_block() {
    let note = make_note(
        "Title\nlet x = 1\nlet y = 2\n",
        vec![
            styled_run(6, 0),
            styled_run(10, 4),
            styled_run(10, 4),
        ],
    );
    let md = protobuf_to_markdown(&note);
    assert!(md.contains("```\nlet x = 1"));
    assert!(md.contains("```"), "should close code block");
}

#[test]
fn indented_list() {
    let note = make_note("Sub item\n", vec![{
        AttributeRun {
            length: Some(9),
            paragraph_style: Some(ParagraphStyle {
                style_type: Some(100),
                alignment: None,
                indent_amount: Some(1),
                checklist: None,
            }),
            font: None,
            font_weight: None,
            underlined: None,
            strikethrough: None,
            superscript: None,
            link: None,
            color: None,
            attachment_info: None,
        }
    }]);
    let md = protobuf_to_markdown(&note);
    assert!(md.contains("  - Sub item"));
}

#[test]
fn inline_formatting_combines_wrappers() {
    let formatted = apply_inline_formatting("both", 3, 1, Some("https://example.com"));
    assert_eq!(formatted, "[~~***both***~~](https://example.com)");
    assert_eq!(apply_inline_formatting("", 1, 1, None), "");
}
