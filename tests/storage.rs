use decistudio_core::{AppData, AppSettings, OperationMode, StorageManager};

fn same(a: &AppData, b: &AppData) -> bool {
    a.clippings == b.clippings
        && a.last_session_content == b.last_session_content
        && a.settings.ui_language == b.settings.ui_language
        && a.settings.mode == b.settings.mode
        && a.settings.server_url == b.settings.server_url
}

fn is_default(d: &AppData) -> bool {
    same(d, &AppData::default())
}

fn sample() -> AppData {
    AppData {
        clippings: vec!["first".to_string(), "second".to_string(), "first".to_string()],
        last_session_content: "fn main() {}\n".to_string(),
        settings: AppSettings {
            ui_language: "Deutsch".to_string(),
            mode: OperationMode::Public,
            server_url: "https://example.org/api".to_string(),
        },
    }
}

fn round_trip(d: &AppData) -> AppData {
    let bytes = StorageManager::payload(d);
    StorageManager::decode(&bytes).expect("payload must decode")
}

#[test]
fn default_settings_values() {
    let s = AppSettings::default();
    assert_eq!(s.ui_language, "English");
    assert_eq!(s.mode, OperationMode::Local);
    assert_eq!(s.server_url, "https://api.decistudio.com");
    let d = AppData::default();
    assert!(d.clippings.is_empty());
    assert_eq!(d.last_session_content, "");
}

#[test]
fn round_trip_default_document() {
    let d = AppData::default();
    assert!(same(&round_trip(&d), &d));
}

#[test]
fn round_trip_sample_document() {
    let d = sample();
    assert!(same(&round_trip(&d), &d));
}

#[test]
fn round_trip_empty_and_unicode_text() {
    let d = AppData {
        clippings: vec![String::new(), "żółw 🐢 日本語".to_string()],
        last_session_content: String::new(),
        settings: AppSettings {
            ui_language: String::new(),
            mode: OperationMode::Local,
            server_url: "ünïcödé".to_string(),
        },
    };
    assert!(same(&round_trip(&d), &d));
}

#[test]
fn round_trip_escaped_characters() {
    let d = AppData {
        clippings: vec!["say \"hi\"".to_string(), "back\\slash".to_string(), "tab\tnl\nnul\u{0}".to_string()],
        last_session_content: "\"}], \"settings\": {".to_string(),
        settings: AppSettings::default(),
    };
    assert!(same(&round_trip(&d), &d));
}

#[test]
fn payload_is_pretty_printed_json() {
    let text = String::from_utf8(StorageManager::payload(&AppData::default())).unwrap();
    let expected = "{\n  \"clippings\": [],\n  \"last_session_content\": \"\",\n  \"settings\": {\n    \"ui_language\": \"English\",\n    \"mode\": \"Local\",\n    \"server_url\": \"https://api.decistudio.com\"\n  }\n}";
    assert_eq!(text, expected);
}

#[test]
fn payload_lists_clippings_one_per_line() {
    let mut d = AppData::default();
    d.clippings = vec!["a".to_string(), "b".to_string()];
    let text = String::from_utf8(StorageManager::payload(&d)).unwrap();
    assert!(text.starts_with("{\n  \"clippings\": [\n    \"a\",\n    \"b\"\n  ],\n"));
}

#[test]
fn payload_escapes_quotes() {
    let mut d = AppData::default();
    d.last_session_content = "a\"b".to_string();
    let text = String::from_utf8(StorageManager::payload(&d)).unwrap();
    assert!(text.contains("\"last_session_content\": \"a\\\"b\""));
}

#[test]
fn load_without_prior_save_gives_default() {
    assert!(is_default(&StorageManager::restore(None)));
}

#[test]
fn load_of_corrupt_bytes_gives_default() {
    for junk in [&b""[..], b"not json", b"{", b"{\"clippings\": [1, 2]}", &[0xff, 0xfe, 0x00], b"[]"] {
        assert!(StorageManager::decode(junk).is_none());
        assert!(is_default(&StorageManager::restore(Some(junk))));
    }
}

#[test]
fn save_then_load_gives_saved_document() {
    let d = sample();
    let stored = StorageManager::payload(&d);
    assert!(same(&StorageManager::restore(Some(&stored)), &d));
}

#[test]
fn second_save_overwrites_first() {
    let mut slot: Option<Vec<u8>> = None;
    let d1 = sample();
    let mut d2 = AppData::default();
    d2.clippings = vec!["only".to_string()];
    slot = Some(StorageManager::payload(&d1));
    assert!(same(&StorageManager::restore(slot.as_deref()), &d1));
    slot = Some(StorageManager::payload(&d2));
    let back = StorageManager::restore(slot.as_deref());
    assert!(same(&back, &d2));
    assert_eq!(back.clippings, vec!["only".to_string()]);
}

#[test]
fn missing_members_take_defaults() {
    let d = StorageManager::decode(b"{}").unwrap();
    assert!(is_default(&d));
    let d = StorageManager::decode(b"{\"clippings\": [\"x\"]}").unwrap();
    assert_eq!(d.clippings, vec!["x".to_string()]);
    assert_eq!(d.last_session_content, "");
    assert_eq!(d.settings.ui_language, "English");
    let d = StorageManager::decode(b"{\"settings\": {\"mode\": \"Public\"}, \"last_session_content\": \"t\"}").unwrap();
    assert_eq!(d.settings.mode, OperationMode::Public);
    assert_eq!(d.settings.ui_language, "English");
    assert_eq!(d.settings.server_url, "https://api.decistudio.com");
    assert_eq!(d.last_session_content, "t");
    assert!(d.clippings.is_empty());
}

#[test]
fn unknown_mode_tag_is_refused() {
    let text = b"{\"settings\": {\"ui_language\": \"English\", \"mode\": \"Remote\", \"server_url\": \"u\"}}";
    assert!(StorageManager::decode(text).is_none());
    assert!(is_default(&StorageManager::restore(Some(&text[..]))));
    assert!(StorageManager::decode(b"{\"settings\": {\"mode\": \"local\"}}").is_none());
}

#[test]
fn compact_text_with_any_member_order_decodes() {
    let text = br#"{"settings":{"server_url":"s","mode":"Public","ui_language":"L"},"last_session_content":"c","clippings":["p","q"]}"#;
    let d = StorageManager::decode(text).unwrap();
    assert_eq!(d.clippings, vec!["p".to_string(), "q".to_string()]);
    assert_eq!(d.last_session_content, "c");
    assert_eq!(d.settings.ui_language, "L");
    assert_eq!(d.settings.mode, OperationMode::Public);
    assert_eq!(d.settings.server_url, "s");
}

#[test]
fn escapes_in_stored_text_are_decoded() {
    let d = StorageManager::decode(br#"{"last_session_content":"aA\n\"q\""}"#).unwrap();
    assert_eq!(d.last_session_content, "aA\n\"q\"");
}

#[test]
fn trailing_text_is_refused() {
    assert!(StorageManager::decode(b"{} x").is_none());
    assert!(StorageManager::decode(b"  {}  \n").is_some());
}

#[test]
fn unknown_member_is_refused() {
    assert!(StorageManager::decode(b"{\"version\": \"2\"}").is_none());
}

#[test]
fn storage_names() {
    assert_eq!(StorageManager::STORAGE_KEY, "decistudio_data");
    assert_eq!(StorageManager::FILE_NAME, "storage.json");
}
