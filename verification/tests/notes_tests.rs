use stik_core::notes::{
    decode_image_payload, detect_image_ext, extract_asset_filenames, generate_slug,
    is_effectively_empty_markdown, is_supported_image_ext,
};

#[test]
fn placeholder_breaks_only_are_treated_as_empty() {
    assert!(is_effectively_empty_markdown("<br>\n\n<br />\n"));
}

#[test]
fn real_content_with_placeholders_is_not_empty() {
    assert!(!is_effectively_empty_markdown("hello\n\n<br>\n"));
}

#[test]
fn slug_takes_five_words_lowercased() {
    assert_eq!(generate_slug("Buy milk, eggs & bread today maybe"), "buy-milk-eggs-bread-today");
    assert_eq!(generate_slug("!!!"), "note");
    assert_eq!(generate_slug(""), "note");
    assert_eq!(
        generate_slug("aaaaaaaaaaaaaaaaaaaaaaaaaaaaaaaaaaaaaaaaaaaaaaaa"),
        "aaaaaaaaaaaaaaaaaaaaaaaaaaaaaaaaaaaaaaaa"
    );
}

#[test]
fn image_extension_follows_data_url_prefix() {
    assert_eq!(detect_image_ext("data:image/jpeg;base64,xxxx"), "jpg");
    assert_eq!(detect_image_ext("data:image/GIF;base64,xxxx"), "gif");
    assert_eq!(detect_image_ext("data:image/webp;base64,xxxx"), "webp");
    assert_eq!(detect_image_ext("data:image/png;base64,xxxx"), "png");
    assert_eq!(detect_image_ext("iVBORw0KGgo="), "png");
}

#[test]
fn supported_image_extensions() {
    assert!(is_supported_image_ext("png"));
    assert!(is_supported_image_ext("avif"));
    assert!(!is_supported_image_ext("exe"));
    assert!(!is_supported_image_ext("PNG"));
}

#[test]
fn asset_references_are_collected() {
    let content = "see ![x](.assets/one.png) and \"[y]\" at '.assets/two.jpg' end .assets/three";
    let names = extract_asset_filenames(content);
    assert_eq!(names, ["one.png", "two.jpg", "three"]);
    assert!(extract_asset_filenames("no assets here").is_empty());
}

#[test]
fn decodes_image_payloads_and_rejects_bad_base64() {
    let (ext, bytes) = decode_image_payload("data:image/png;base64,aGk=").unwrap();
    assert_eq!(ext, "png");
    assert_eq!(bytes, b"hi");

    let (ext, bytes) = decode_image_payload("aGk=").unwrap();
    assert_eq!(ext, "png");
    assert_eq!(bytes, b"hi");

    let err = decode_image_payload("not-valid-base64").unwrap_err();
    assert!(err.starts_with("Invalid base64: "));
}
