use serde_json::Value;
use zed_win_keys::json::Json;
use zed_win_keys::jsonc::strip_jsonc_comments;
use zed_win_keys::keymap::{
    make_block, merge_blocks, remove_managed_blocks, ActionValue, MARKER_KEY, MARKER_VALUE,
};

fn user_block() -> Json {
    Json::Object(vec![
        ("bindings".to_string(), Json::Object(vec![("cmd-k".to_string(), Json::Str("custom".to_string()))])),
        ("context".to_string(), Json::Str("Editor".to_string())),
    ])
}

#[test]
fn strip_comments_basic() {
    let input = r#"[
  // this is a comment
  { "key": "value" /* inline */ }
]"#;
    let stripped = strip_jsonc_comments(input);
    let parsed: Value = serde_json::from_str(&stripped).unwrap();
    assert!(parsed.is_array());
}

#[test]
fn strip_comments_preserves_strings() {
    let input = r#"{ "url": "https://example.com" }"#;
    let stripped = strip_jsonc_comments(input);
    let parsed: Value = serde_json::from_str(&stripped).unwrap();
    assert_eq!(parsed["url"].as_str().unwrap(), "https://example.com");
}

#[test]
fn managed_block_roundtrip() {
    let block = make_block("Editor", &[("ctrl-c", ActionValue::Simple("editor::Copy".into()))]);
    assert!(block.as_object().is_some());
    assert_eq!(block.get(MARKER_KEY).unwrap().as_str().unwrap(), MARKER_VALUE);
}

#[test]
fn action_with_arg_produces_array() {
    let args = Json::Object(vec![("index".to_string(), Json::Number("0".to_string()))]);
    let block = make_block(
        "Pane",
        &[("ctrl-1", ActionValue::WithArg("pane::ActivateItem".into(), args))],
    );
    let bindings = block.get("bindings").unwrap();
    assert!(bindings.as_object().is_some());
    let action = bindings.get("ctrl-1").unwrap();
    assert!(action.is_array());
    let arr = action.as_array().unwrap();
    assert_eq!(arr[0].as_str().unwrap(), "pane::ActivateItem");
    assert_eq!(arr[1].get("index").unwrap().as_number_text().unwrap(), "0");
}

#[test]
fn remove_managed_preserves_user_blocks() {
    let managed_block = make_block("Editor", &[("ctrl-c", ActionValue::Simple("editor::Copy".into()))]);
    let mut arr = vec![user_block(), managed_block];
    remove_managed_blocks(&mut arr);
    assert_eq!(arr.len(), 1);
    assert_eq!(arr[0], user_block());
}

#[test]
fn merge_replaces_old_managed_blocks() {
    let managed_v1 = make_block("Editor", &[("ctrl-c", ActionValue::Simple("editor::Copy".into()))]);
    let existing = Json::Array(vec![managed_v1]);
    let new_blocks = vec![make_block("Editor", &[("ctrl-v", ActionValue::Simple("editor::Paste".into()))])];
    let merged = merge_blocks(&existing, new_blocks);
    let arr = merged.as_array().unwrap();
    assert_eq!(arr.len(), 1);
    let bindings = arr[0].get("bindings").unwrap();
    assert!(bindings.as_object().is_some());
    assert!(bindings.get("ctrl-v").is_some());
    assert!(bindings.get("ctrl-c").is_none());
}

#[test]
fn empty_keymap_applies_cleanly() {
    let existing = Json::Array(vec![]);
    let blocks = vec![make_block("", &[("ctrl-s", ActionValue::Simple("workspace::Save".into()))])];
    let merged = merge_blocks(&existing, blocks);
    assert_eq!(merged.as_array().unwrap().len(), 1);
}
