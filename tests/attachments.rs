use codex_monitor::attachments::{
    build_turn_input_items, image_data_url, image_mime_type_for_path, normalize_file_path,
    percent_decode,
};
use codex_monitor::json::JsonValue;

#[test]
fn normalize_strips_file_uri_prefix() {
    assert_eq!(
        normalize_file_path("file:///var/mobile/Containers/Data/photo.jpg"),
        "/var/mobile/Containers/Data/photo.jpg"
    );
}

#[test]
fn normalize_strips_file_localhost_prefix() {
    assert_eq!(
        normalize_file_path("file://localhost/Users/test/image.png"),
        "/Users/test/image.png"
    );
}

#[test]
fn normalize_decodes_percent_encoding() {
    assert_eq!(
        normalize_file_path("file:///var/mobile/path%20with%20spaces/img.jpg"),
        "/var/mobile/path with spaces/img.jpg"
    );
}

#[test]
fn normalize_plain_path_unchanged() {
    assert_eq!(
        normalize_file_path("/var/mobile/Containers/Data/photo.jpg"),
        "/var/mobile/Containers/Data/photo.jpg"
    );
}

#[test]
fn normalize_plain_path_percent_sequences_unchanged() {
    assert_eq!(
        normalize_file_path("/tmp/report%20final.png"),
        "/tmp/report%20final.png"
    );
}

#[test]
fn normalize_trims_whitespace() {
    assert_eq!(normalize_file_path("  /tmp/image.png  "), "/tmp/image.png");
}

#[test]
fn percent_decoding_keeps_broken_escapes() {
    assert_eq!(percent_decode(&b"a%2Fb%zz%4".to_vec()), b"a/b%zz%4".to_vec());
    assert_eq!(normalize_file_path("file:///caf%C3%A9.png"), "/caf\u{e9}.png");
    assert_eq!(normalize_file_path("file:///bad%FF.png"), "/bad\u{fffd}.png");
}

#[test]
fn image_types_by_extension() {
    assert_eq!(image_mime_type_for_path("/a/b.PNG").as_deref(), Some("image/png"));
    assert_eq!(image_mime_type_for_path("photo.jpeg").as_deref(), Some("image/jpeg"));
    assert_eq!(image_mime_type_for_path("x.tif").as_deref(), Some("image/tiff"));
    assert_eq!(image_mime_type_for_path("notes.txt"), None);
    assert_eq!(image_mime_type_for_path("/a/.png"), None);
    assert_eq!(image_mime_type_for_path("/a.b/noext"), None);
}

#[test]
fn data_url_encodes_the_bytes() {
    assert_eq!(image_data_url("image/png", &b"hi!".to_vec()), "data:image/png;base64,aGkh");
}

fn text_of(v: &JsonValue, key: &str) -> Option<String> {
    match v.get(key) {
        Some(JsonValue::Str(s)) => Some(s.clone()),
        _ => None,
    }
}

#[test]
fn turn_items_from_text_and_images() {
    let images = vec![
        " https://x/y.png ".to_string(),
        "  ".to_string(),
        "/tmp/local.png".to_string(),
        "data:image/png;base64,AA".to_string(),
    ];
    let items = build_turn_input_items("  hello ", &images).unwrap();
    assert_eq!(items.len(), 4);
    assert_eq!(text_of(&items[0], "type").as_deref(), Some("text"));
    assert_eq!(text_of(&items[0], "text").as_deref(), Some("hello"));
    assert_eq!(text_of(&items[1], "url").as_deref(), Some("https://x/y.png"));
    assert_eq!(text_of(&items[2], "type").as_deref(), Some("localImage"));
    assert_eq!(text_of(&items[2], "path").as_deref(), Some("/tmp/local.png"));
    assert_eq!(text_of(&items[3], "type").as_deref(), Some("image"));
    assert_eq!(
        build_turn_input_items("   ", &vec![" ".to_string()]).err(),
        Some("empty user message".to_string())
    );
}
