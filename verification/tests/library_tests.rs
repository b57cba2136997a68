use zed_win_keys::backups::{is_backup, latest_backup, sorted_backups, zed_dir_name};
use zed_win_keys::bindings::{categories, Action, Binding, Category};
use zed_win_keys::cli::{
    apply_report_text, apply_step, choose_categories, terminal_listing_text,
    text_contains, ApplyStep,
};
use zed_win_keys::escape::json_escape;
use zed_win_keys::grouping::{collect_bindings, group_by_context};
use zed_win_keys::json::Json;
use zed_win_keys::json_text::{format_json, parse_json};
use zed_win_keys::jsonc::{remove_trailing_commas, strip_jsonc_comments};
use zed_win_keys::keymap::{
    action_to_value, block_is_managed, build_blocks, keymap_source, make_block, read_keymap_text,
    merge_blocks,
    ActionValue,
};
use zed_win_keys::order::{text_equal, text_precedes};
use zed_win_keys::output::{
    apply_output_for, completion_labels, find_slug, generate_apply_output, generate_json_blocks,
    count_bindings, count_selected, generate_list_output, generate_revert_instructions,
    run_slash_command, select_categories,
};
use zed_win_keys::text::{join_strings, to_decimal, trim_text};

fn category<'a>(cats: &'a [Category], slug: &str) -> &'a Category {
    cats.iter().find(|c| c.slug == slug).unwrap()
}

// ---------------------------------------------------------------------------
// Comment stripping
// ---------------------------------------------------------------------------

#[test]
fn strip_line_comment_keeps_newline() {
    assert_eq!(strip_jsonc_comments("a // c\nb"), "a \nb");
}

#[test]
fn strip_block_comment() {
    assert_eq!(strip_jsonc_comments("[1, /* two */ 3]"), "[1,  3]");
}

#[test]
fn strip_unclosed_block_comment_drops_the_rest() {
    assert_eq!(strip_jsonc_comments("x /* open"), "x ");
    assert_eq!(strip_jsonc_comments("x /*/"), "x ");
}

#[test]
fn strip_keeps_comment_markers_inside_strings() {
    let text = r#"{"a": "x // y /* z */", "b": "q\"//r"}"#;
    assert_eq!(strip_jsonc_comments(text), text);
}

#[test]
fn strip_keeps_lone_slash() {
    assert_eq!(strip_jsonc_comments("a / b /"), "a / b /");
}

#[test]
fn strip_is_idempotent_on_example() {
    let once = strip_jsonc_comments("[ /* a */ 1, // b\n \"//\" ] /* c");
    assert_eq!(once, "[  1, \n \"//\" ] ");
    assert_eq!(strip_jsonc_comments(&once), once);
}

#[test]
fn strip_never_lengthens() {
    for text in ["", "/", "//", "/**/", "a // b", "\"/*\"", "x /* y */ z"] {
        assert!(strip_jsonc_comments(text).chars().count() <= text.chars().count());
    }
}

#[test]
fn strip_without_slash_is_identity() {
    let text = "{ \"k\": [1, 2, \"three\"] }\n";
    assert_eq!(strip_jsonc_comments(text), text);
}

#[test]
fn keymap_source_of_blank_file_is_none() {
    assert_eq!(keymap_source("  \n\t "), None);
    assert_eq!(keymap_source(""), None);
}

#[test]
fn keymap_source_trims_and_strips() {
    assert_eq!(keymap_source("  [ // c\n ]  \n"), Some("[ \n ]".to_string()));
}

#[test]
fn keymap_source_drops_trailing_commas() {
    let text = keymap_source("[\n  { \"bindings\": { \"ctrl-k\": \"a::B\", }, },\n]\n").unwrap();
    assert_eq!(text, "[\n  { \"bindings\": { \"ctrl-k\": \"a::B\" } }\n]");
    let parsed: serde_json::Value = serde_json::from_str(&text).unwrap();
    assert_eq!(parsed[0]["bindings"]["ctrl-k"], "a::B");
}

#[test]
fn trailing_commas_inside_strings_stay() {
    assert_eq!(remove_trailing_commas("[\",]\", 1 ,\t\n]"), "[\",]\", 1 \t\n]");
    assert_eq!(remove_trailing_commas("[\"a\\\",]\"]"), "[\"a\\\",]\"]");
    assert_eq!(remove_trailing_commas("[1, 2]"), "[1, 2]");
    assert_eq!(remove_trailing_commas("{\"a\": 1,}"), "{\"a\": 1}");
    assert_eq!(remove_trailing_commas(","), ",");
}

#[test]
fn escaped_text_reads_back() {
    for s in ["ctrl-\\", "say \"hi\"", "tab\there\nnext\r\u{8}\u{c}", "\u{0}\u{1f}\u{7f}", "é ü"] {
        let literal = format!("\"{}\"", json_escape(s));
        let back: String = serde_json::from_str(&literal).unwrap();
        assert_eq!(back, s);
    }
}

#[test]
fn text_without_commas_is_unchanged() {
    assert_eq!(remove_trailing_commas("{\"a\": [1]}\n"), "{\"a\": [1]}\n");
}

#[test]
fn keymap_read_from_file_content() {
    let empty = Json::Array(vec![]);
    assert_eq!(read_keymap_text(None), (empty.deep_copy(), None));
    assert_eq!(read_keymap_text(Some(" \n ")), (empty.deep_copy(), None));
    let (v, warning) = read_keymap_text(Some("// mine\n[ { \"bindings\": { \"ctrl-k\": \"a::B\", }, }, ]\n"));
    assert_eq!(warning, None);
    assert_eq!(
        v,
        Json::Array(vec![Json::Object(vec![(
            "bindings".to_string(),
            Json::Object(vec![("ctrl-k".to_string(), Json::Str("a::B".to_string()))])
        )])])
    );
    let (v, warning) = read_keymap_text(Some("[ {"));
    assert_eq!(v, empty);
    assert!(warning.is_some());
}

#[test]
fn parse_and_format_json() {
    assert_eq!(parse_json("[1, true, null]"), Ok(Json::Array(vec![
        Json::Number("1".to_string()),
        Json::Bool(true),
        Json::Null,
    ])));
    assert!(parse_json("[1,]").is_err());
    let v = Json::Array(vec![Json::Object(vec![
        ("a".to_string(), Json::Number("1".to_string())),
        ("b".to_string(), Json::Raw("{\"index\": 0}".to_string())),
    ])]);
    assert_eq!(format_json(v), "[\n  {\n    \"a\": 1,\n    \"b\": {\n      \"index\": 0\n    }\n  }\n]");
}

#[test]
fn applying_twice_writes_the_same_text() {
    let cats = categories();
    let sel = [category(&cats, "clipboard"), category(&cats, "navigation")];
    let user = "[\n  // my own\n  { \"context\": \"Editor\", \"bindings\": { \"ctrl-q\": \"zed::Quit\" } },\n]";
    let once = format_json(merge_blocks(&read_keymap_text(Some(user)).0, build_blocks(&sel)));
    let twice = format_json(merge_blocks(&read_keymap_text(Some(&once)).0, build_blocks(&sel)));
    assert_eq!(once, twice);
    assert!(once.contains("zed::Quit"));
}

#[test]
fn decimal_numerals() {
    assert_eq!(to_decimal(0), "0");
    assert_eq!(to_decimal(7), "7");
    assert_eq!(to_decimal(105), "105");
    assert_eq!(to_decimal(1234567890), "1234567890");
}

#[test]
fn joining_strings() {
    let parts = vec!["a".to_string(), "bc".to_string(), "d".to_string()];
    assert_eq!(join_strings(&parts, ", "), "a, bc, d");
    assert_eq!(join_strings(&vec![], ", "), "");
    assert_eq!(join_strings(&vec!["x".to_string()], ", "), "x");
}

#[test]
fn trimming_white_space() {
    assert_eq!(trim_text("  a b \n"), "a b");
    assert_eq!(trim_text("\u{3000}x\u{a0}"), "x");
    assert_eq!(trim_text("   "), "");
}

#[test]
fn text_order_is_str_order() {
    assert!(text_precedes("", "a"));
    assert!(text_precedes("Editor", "Editor && mode == full"));
    assert!(text_precedes("Pane", "Terminal"));
    assert!(!text_precedes("b", "a"));
    assert!(!text_precedes("a", "a"));
    assert_eq!(text_precedes("Zed", "zed"), "Zed" < "zed");
    assert!(text_equal("abc", "abc"));
    assert!(!text_equal("abc", "abd"));
}

#[test]
fn substring_search() {
    assert!(text_contains("clipboard", "clip"));
    assert!(text_contains("clipboard", ""));
    assert!(text_contains("code-intel", "intel"));
    assert!(!text_contains("clip", "clipboard"));
    assert!(!text_contains("files", "fli"));
}

// ---------------------------------------------------------------------------
// The catalog
// ---------------------------------------------------------------------------

#[test]
fn catalog_counts() {
    let cats = categories();
    assert_eq!(cats.len(), 14);
    let total: usize = cats.iter().map(|c| c.bindings.len()).sum();
    assert_eq!(total, 105);
    let mut slugs: Vec<&str> = cats.iter().map(|c| c.slug).collect();
    slugs.sort();
    slugs.dedup();
    assert_eq!(slugs.len(), 14);
    assert_eq!(category(&cats, "navigation").bindings.len(), 17);
}

#[test]
fn action_display_forms() {
    let b = Binding { key: "ctrl-c", action: Action::Simple("editor::Copy"), context: "Editor" };
    assert_eq!(b.action_display(), "editor::Copy");
    let b = Binding { key: "ctrl-1", action: Action::WithArg("pane::ActivateItem", "{\"index\": 0}"), context: "Pane" };
    assert_eq!(b.action_display(), "pane::ActivateItem {\"index\": 0}");
}

// ---------------------------------------------------------------------------
// Grouping and blocks
// ---------------------------------------------------------------------------

#[test]
fn grouping_orders_contexts_ascending() {
    let cats = categories();
    let refs: Vec<&Category> = cats.iter().collect();
    let all = collect_bindings(&refs);
    assert_eq!(all.len(), 105);
    let groups = group_by_context(&all);
    let names: Vec<&str> = groups.iter().map(|g| g.context).collect();
    let mut sorted = names.clone();
    sorted.sort();
    sorted.dedup();
    assert_eq!(names, sorted);
    assert_eq!(names[0], "");
    let total: usize = groups.iter().map(|g| g.bindings.len()).sum();
    assert_eq!(total, 105);
    assert!(groups.iter().all(|g| g.bindings.iter().all(|b| b.context == g.context)));
}

#[test]
fn json_blocks_for_clipboard() {
    let cats = categories();
    let text = generate_json_blocks(&[category(&cats, "clipboard")]);
    let expected = "[\n  {\n    \"context\": \"Editor\",\n    \"__managed_by\": \"zed-win-keys\",\n    \"bindings\": {\n      \"ctrl-c\": \"editor::Copy\",\n      \"ctrl-x\": \"editor::Cut\",\n      \"ctrl-v\": \"editor::Paste\",\n      \"ctrl-shift-v\": \"editor::Paste\"\n    }\n  }\n]";
    assert_eq!(text, expected);
}

#[test]
fn json_blocks_global_context_has_no_context_line() {
    let cats = categories();
    let text = generate_json_blocks(&[category(&cats, "git")]);
    assert_eq!(
        text,
        "[\n  {\n    \"__managed_by\": \"zed-win-keys\",\n    \"bindings\": {\n      \"ctrl-shift-g\": \"git_panel::ToggleFocus\"\n    }\n  }\n]"
    );
}

#[test]
fn json_blocks_parse_as_json() {
    let cats = categories();
    let refs = [category(&cats, "navigation"), category(&cats, "clipboard"), category(&cats, "panels")];
    let text = generate_json_blocks(&refs);
    let parsed: serde_json::Value = serde_json::from_str(&text).unwrap();
    let arr = parsed.as_array().unwrap();
    assert_eq!(arr.len(), 4);
    assert!(arr.iter().all(|b| b["__managed_by"] == "zed-win-keys"));
    let pane = arr.iter().find(|b| b["context"] == "Pane").unwrap();
    assert_eq!(pane["bindings"]["ctrl-1"][1]["index"], 0);
}

#[test]
fn json_blocks_escape_backslash_keys() {
    // The zoom-layout keys end in a backslash; it is written as `\\`.
    let cats = categories();
    let text = generate_json_blocks(&[category(&cats, "zoom-layout")]);
    assert!(text.contains("\"ctrl-\\\\\": \"pane::SplitRight\""));
    assert!(text.contains("\"ctrl-shift-\\\\\": \"pane::SplitDown\""));
    let parsed: serde_json::Value = serde_json::from_str(&text).unwrap();
    assert_eq!(parsed[1]["bindings"]["ctrl-\\"], "pane::SplitRight");
}

#[test]
fn json_blocks_of_whole_catalog_parse() {
    let cats = categories();
    let refs: Vec<&Category> = cats.iter().collect();
    let text = generate_json_blocks(&refs);
    let parsed: serde_json::Value = serde_json::from_str(&text).unwrap();
    let blocks = parsed.as_array().unwrap();
    let total: usize = blocks.iter().map(|b| b["bindings"].as_object().unwrap().len()).sum();
    assert!(total > 0);
    assert!(blocks.iter().all(|b| b["__managed_by"] == "zed-win-keys"));
}

fn same_value(v: &serde_json::Value, j: &Json) -> bool {
    match j {
        Json::Null => v.is_null(),
        Json::Bool(b) => v.as_bool() == Some(*b),
        Json::Number(t) => v.is_number() && v.to_string() == *t,
        Json::Str(t) => v.as_str() == Some(t.as_str()),
        Json::Array(items) => match v.as_array() {
            Some(vs) => vs.len() == items.len() && vs.iter().zip(items.iter()).all(|(a, b)| same_value(a, b)),
            None => false,
        },
        Json::Object(pairs) => match v.as_object() {
            Some(map) => {
                map.len() == pairs.len()
                    && pairs.iter().all(|(k, val)| map.get(k).map_or(false, |x| same_value(x, val)))
            },
            None => false,
        },
        Json::Raw(t) => serde_json::from_str::<serde_json::Value>(t).map_or(false, |x| x == *v),
    }
}

#[test]
fn extension_blocks_parse_to_command_line_blocks() {
    let cats = categories();
    let all: Vec<&Category> = cats.iter().collect();
    let some = [category(&cats, "zoom-layout"), category(&cats, "navigation"), category(&cats, "terminal")];
    for refs in [&all[..], &some[..]] {
        let parsed: serde_json::Value = serde_json::from_str(&generate_json_blocks(refs)).unwrap();
        let blocks = build_blocks(refs);
        let vs = parsed.as_array().unwrap();
        assert_eq!(vs.len(), blocks.len());
        for (v, b) in vs.iter().zip(blocks.iter()) {
            assert!(same_value(v, b));
        }
    }
}

#[test]
fn json_escape_writes_quotes_and_controls() {
    assert_eq!(json_escape("a\"b\\c"), "a\\\"b\\\\c");
    assert_eq!(json_escape("x\ny\u{1}"), "x\\ny\\u0001");
    assert_eq!(json_escape("plain-text"), "plain-text");
}

#[test]
fn action_value_of_json_arguments() {
    let v = action_to_value(&Action::WithArg("pane::ActivateItem", "{\"index\": 0}"));
    match v {
        ActionValue::WithArg(name, Json::Raw(args)) => {
            assert_eq!(name, "pane::ActivateItem");
            assert_eq!(args, "{\"index\": 0}");
        },
        _ => panic!("expected arguments kept as JSON"),
    }
}

#[test]
fn action_value_of_bad_arguments_is_a_string() {
    let v = action_to_value(&Action::WithArg("x::Y", "{oops"));
    match v {
        ActionValue::WithArg(_, Json::Str(args)) => assert_eq!(args, "{oops"),
        _ => panic!("expected arguments kept as a string"),
    }
    match action_to_value(&Action::Simple("a::B")) {
        ActionValue::Simple(s) => assert_eq!(s, "a::B"),
        _ => panic!("expected a simple action"),
    }
}

#[test]
fn built_blocks_are_managed_and_sorted() {
    let cats = categories();
    let sel = [category(&cats, "terminal"), category(&cats, "clipboard"), category(&cats, "files")];
    let blocks = build_blocks(&sel);
    // contexts: "" (files), "Editor" (clipboard), "Pane" (files), "Terminal"
    assert_eq!(blocks.len(), 4);
    assert!(blocks.iter().all(block_is_managed));
    assert!(blocks[0].get("context").is_none());
    assert_eq!(blocks[1].get("context").unwrap().as_str(), Some("Editor"));
    assert_eq!(blocks[2].get("context").unwrap().as_str(), Some("Pane"));
    assert_eq!(blocks[3].get("context").unwrap().as_str(), Some("Terminal"));
    let terminal = blocks[3].get("bindings").unwrap();
    assert_eq!(terminal.get("ctrl-c").unwrap().as_str(), Some("terminal::Copy"));
}

#[test]
fn duplicate_keys_keep_the_last_action() {
    let block = make_block(
        "Editor",
        &[
            ("ctrl-d", ActionValue::Simple("a::One".into())),
            ("ctrl-e", ActionValue::Simple("a::Two".into())),
            ("ctrl-d", ActionValue::Simple("a::Three".into())),
        ],
    );
    let bindings = block.get("bindings").unwrap();
    assert_eq!(bindings.as_object().unwrap().len(), 2);
    assert_eq!(bindings.get("ctrl-d").unwrap().as_str(), Some("a::Three"));
}

#[test]
fn managed_detection() {
    let ours = make_block("", &[]);
    assert!(block_is_managed(&ours));
    let other_marker = Json::Object(vec![("__managed_by".into(), Json::Str("someone-else".into()))]);
    assert!(!block_is_managed(&other_marker));
    let not_text = Json::Object(vec![("__managed_by".into(), Json::Bool(true))]);
    assert!(!block_is_managed(&not_text));
    assert!(!block_is_managed(&Json::Array(vec![])));
}

#[test]
fn merging_twice_equals_merging_once() {
    let user = Json::Object(vec![("bindings".into(), Json::Object(vec![]))]);
    let existing = Json::Array(vec![
        make_block("Editor", &[("ctrl-c", ActionValue::Simple("editor::Copy".into()))]),
        user.deep_copy(),
        Json::Null,
    ]);
    let once = merge_blocks(&existing, vec![make_block("", &[("ctrl-s", ActionValue::Simple("workspace::Save".into()))])]);
    let twice = merge_blocks(&once, vec![make_block("", &[("ctrl-s", ActionValue::Simple("workspace::Save".into()))])]);
    assert_eq!(once, twice);
    let items = once.as_array().unwrap();
    assert_eq!(items.len(), 3);
    assert_eq!(items[0], user);
    assert_eq!(items[1], Json::Null);
}

#[test]
fn merging_into_a_non_array_starts_fresh() {
    let existing = Json::Object(vec![]);
    let merged = merge_blocks(&existing, vec![make_block("", &[])]);
    assert_eq!(merged.as_array().unwrap().len(), 1);
}

// ---------------------------------------------------------------------------
// The slash command
// ---------------------------------------------------------------------------

#[test]
fn list_output_layout() {
    let cats = categories();
    let text = generate_list_output(&cats);
    assert!(text.starts_with("# Windows Key Bindings — Available Categories\n\n"));
    assert!(text.contains("## Clipboard [clipboard]\nCopy, cut, paste\n\n| Shortcut | Action | Context |\n|----------|--------|---------|\n| `ctrl-c` | `editor::Copy` | Editor |\n"));
    assert!(text.contains("| `ctrl-s` | `workspace::Save` | global |\n"));
    assert!(text.contains("| `ctrl-1` | `pane::ActivateItem {\"index\": 0}` | Pane |\n"));
    assert!(text.ends_with("\n**Total: 105 bindings across 14 categories.**\n"));
}

#[test]
fn list_output_rows_for_documented_shortcuts() {
    let cats = categories();
    let text = generate_list_output(&cats);
    for (key, action) in [
        ("ctrl-c", "editor::Copy"),
        ("ctrl-v", "editor::Paste"),
        ("ctrl-x", "editor::Cut"),
        ("ctrl-s", "workspace::Save"),
        ("ctrl-z", "editor::Undo"),
        ("ctrl-f", "buffer_search::Deploy"),
        ("ctrl-shift-f", "pane::DeploySearch"),
        ("ctrl-p", "file_finder::Toggle"),
        ("ctrl-shift-p", "command_palette::Toggle"),
        ("f12", "editor::GoToDefinition"),
        ("ctrl-.", "editor::ToggleCodeActions"),
    ] {
        assert!(text.contains(&format!("| `{}` | `{}` |", key, action)), "{}", key);
    }
}

#[test]
fn list_output_descriptions() {
    let cats = categories();
    let text = generate_list_output(&cats);
    assert!(text.contains("## Cursor Movement [cursor]\nWord-level movement, Home/End, delete word\n"));
    assert!(text.contains("## File Operations [files]\nSave, save as, open, new file, close tab, reopen tab\n"));
    assert!(text.contains("## Code Editing [code-editing]\nComments, indent/outdent, move lines, fold, format, join\n"));
    assert!(text.contains("## Code Intelligence [code-intel]\nGo to definition, references, rename, code actions\n"));
}

#[test]
fn binding_counts() {
    let cats = categories();
    assert_eq!(count_bindings(&cats), 105);
    assert_eq!(count_bindings(&[]), 0);
    let sel = [category(&cats, "navigation"), category(&cats, "git"), category(&cats, "git")];
    assert_eq!(count_selected(&sel), 19);
}

#[test]
fn unknown_filter_applies_like_empty_filter() {
    let cats = categories();
    assert_eq!(generate_apply_output(&cats, &["nope", "NOT-A-SLUG"]), generate_apply_output(&cats, &[]));
}

#[test]
fn filter_slugs_match_in_any_case() {
    let cats = categories();
    assert_eq!(
        generate_apply_output(&cats, &["Clipboard", "GIT"]),
        generate_apply_output(&cats, &["clipboard", "git"])
    );
}

#[test]
fn revert_instructions_text() {
    let text = generate_revert_instructions();
    assert!(text.starts_with("# Windows Key Bindings — Revert Instructions\n\n"));
    assert!(text.contains("remove all JSON blocks that contain `\"__managed_by\": \"zed-win-keys\"` from"));
    assert!(text.ends_with("**Important:** Do NOT remove objects that don't have the `__managed_by` marker.\n"));
}

#[test]
fn apply_output_for_one_category() {
    let cats = categories();
    let text = generate_apply_output(&cats, &["CLIPBOARD"]);
    assert!(text.starts_with("# Windows Key Bindings for Zed\n\nApply 4 Windows-style keybindings (1 categories: Clipboard) to Zed's keymap.\n\n## Instructions for applying\n\n"));
    assert!(text.ends_with("## Categories included\n\n- **Clipboard** (clipboard): Copy, cut, paste (4 bindings)\n"));
}

#[test]
fn apply_output_ignores_unknown_slugs() {
    let cats = categories();
    let text = generate_apply_output(&cats, &["nope", "git", "git"]);
    assert!(text.contains("Apply 2 Windows-style keybindings (2 categories: Git, Git)"));
    let all = generate_apply_output(&cats, &["nope"]);
    assert!(all.contains("Apply 105 Windows-style keybindings (14 categories: Clipboard, Undo / Redo,"));
    assert_eq!(generate_apply_output(&cats, &[]), all);
}

#[test]
fn selecting_categories() {
    let cats = categories();
    let sel = select_categories(&cats, &vec!["files".to_string(), "zzz".to_string(), "clipboard".to_string()]);
    let slugs: Vec<&str> = sel.iter().map(|c| c.slug).collect();
    assert_eq!(slugs, vec!["files", "clipboard"]);
    assert_eq!(select_categories(&cats, &vec!["Files".to_string()]).len(), 14);
    assert_eq!(find_slug(&cats, "git"), Some(13));
    assert_eq!(find_slug(&cats, "Git"), None);
    let refs: Vec<&Category> = cats.iter().collect();
    assert_eq!(apply_output_for(&refs), generate_apply_output(&cats, &[]));
}

#[test]
fn slash_command_dispatch() {
    let cats = categories();
    assert_eq!(run_slash_command("other", &vec![], &cats), Err("Unknown command".to_string()));
    assert_eq!(run_slash_command("win-keys", &vec!["list".to_string()], &cats), Ok(generate_list_output(&cats)));
    assert_eq!(run_slash_command("win-keys", &vec!["revert".to_string()], &cats), Ok(generate_revert_instructions()));
    assert_eq!(run_slash_command("win-keys", &vec![], &cats), Ok(generate_apply_output(&cats, &[])));
    assert_eq!(
        run_slash_command("win-keys", &vec!["apply".to_string(), "git".to_string()], &cats),
        Ok(generate_apply_output(&cats, &["git"]))
    );
    assert_eq!(
        run_slash_command("win-keys", &vec!["Git".to_string(), "panels".to_string()], &cats),
        Ok(generate_apply_output(&cats, &["Git", "panels"]))
    );
}

#[test]
fn completions_for_the_command() {
    let cats = categories();
    let labels = completion_labels("win-keys", &cats);
    assert_eq!(labels.len(), 17);
    assert_eq!(&labels[..4], &["apply", "revert", "list", "apply clipboard"]);
    assert_eq!(labels[16], "apply git");
    assert!(completion_labels("other", &cats).is_empty());
}

// ---------------------------------------------------------------------------
// The command line tool
// ---------------------------------------------------------------------------

#[test]
fn terminal_listing_with_filter() {
    let cats = categories();
    let text = terminal_listing_text(&cats, Some("clip"));
    assert_eq!(
        text,
        "\n  Clipboard [clipboard]\n  Copy, cut, paste\n  ---------------------\n    ctrl-c                   → editor::Copy  (Editor)\n    ctrl-x                   → editor::Cut  (Editor)\n    ctrl-v                   → editor::Paste  (Editor)\n    ctrl-shift-v             → editor::Paste  (Editor)\n\n  Use `apply -c <slug>,<slug>` to apply specific categories.\n  Use `apply` with no flags to apply all categories.\n\n"
    );
}

#[test]
fn terminal_listing_matches_names_in_lowercase() {
    let cats = categories();
    let text = terminal_listing_text(&cats, Some("UNDO / R"));
    assert!(text.starts_with("\n  Undo / Redo [undo-redo]\n"));
    assert!(!text.contains("Clipboard"));
    let git = terminal_listing_text(&cats, Some("git"));
    assert!(git.contains("    ctrl-shift-g             → git_panel::ToggleFocus\n"));
    let all = terminal_listing_text(&cats, None);
    assert!(all.contains("[zoom-layout]"));
    assert!(all.contains("    ctrl-1                   → pane::ActivateItem {\"index\": 0}  (Pane)\n"));
}

#[test]
fn choosing_categories_by_slug() {
    let cats = categories();
    let all = choose_categories(&cats, None).unwrap();
    assert_eq!(all.len(), 14);
    let picked = choose_categories(&cats, Some(vec!["GIT".to_string(), "clipboard".to_string()])).unwrap();
    let slugs: Vec<&str> = picked.iter().map(|c| c.slug).collect();
    assert_eq!(slugs, vec!["git", "clipboard"]);
    let err = choose_categories(&cats, Some(vec!["clipboard".to_string(), "Nope".to_string(), "x".to_string()]));
    assert_eq!(err.err(), Some("Unknown category: 'nope'. Use `list` to see available categories.".to_string()));
}

#[test]
fn apply_report() {
    let cats = categories();
    let sel = [category(&cats, "clipboard"), category(&cats, "git")];
    assert_eq!(
        apply_report_text(&sel, "/tmp/zed/keymap.json"),
        "Applied 5 bindings from 2 categories: Clipboard, Git\nKeymap written to /tmp/zed/keymap.json\n\nRestart Zed or run `zed: reload keymap` for changes to take effect.\n"
    );
}

#[test]
fn apply_steps() {
    assert_eq!(apply_step(true, false, true), ApplyStep::PrintOnly);
    assert_eq!(apply_step(false, false, true), ApplyStep::BackupThenWrite);
    assert_eq!(apply_step(false, true, true), ApplyStep::Write);
    assert_eq!(apply_step(false, false, false), ApplyStep::Write);
}

#[test]
fn zed_directory_choice() {
    assert_eq!(zed_dir_name(true, true), "Zed");
    assert_eq!(zed_dir_name(false, true), "zed");
    assert_eq!(zed_dir_name(false, false), "Zed");
}

#[test]
fn backup_names() {
    assert!(is_backup("keymap_20240101_120000.json"));
    assert!(is_backup("x.y.json"));
    assert!(is_backup("a.json"));
    assert!(!is_backup(".json"));
    assert!(!is_backup("a.JSON"));
    assert!(!is_backup("a.json.bak"));
    assert!(!is_backup("json"));
    assert!(!is_backup(".."));
    assert!(!is_backup(""));
}

#[test]
fn backups_sorted_by_name() {
    let entries = vec![
        ("keymap_20240301_000000.json".to_string(), 3),
        ("notes.txt".to_string(), 9),
        ("keymap_20240101_000000.json".to_string(), 1),
        ("keymap_20240201_000000.json".to_string(), 2),
    ];
    let sorted = sorted_backups(entries);
    let names: Vec<&str> = sorted.iter().map(|e| e.0.as_str()).collect();
    assert_eq!(names, vec!["keymap_20240101_000000.json", "keymap_20240201_000000.json", "keymap_20240301_000000.json"]);
    assert_eq!(sorted.iter().map(|e| e.1).collect::<Vec<u64>>(), vec![1, 2, 3]);
}

#[test]
fn backups_with_equal_names_keep_their_order() {
    let entries = vec![
        ("b.json".to_string(), 1),
        ("a.json".to_string(), 2),
        ("b.json".to_string(), 3),
        ("a.json".to_string(), 4),
    ];
    let sorted = sorted_backups(entries);
    assert_eq!(
        sorted,
        vec![
            ("a.json".to_string(), 2),
            ("a.json".to_string(), 4),
            ("b.json".to_string(), 1),
            ("b.json".to_string(), 3),
        ]
    );
}

#[test]
fn latest_backup_is_last_by_name() {
    let entries = vec![
        ("b.json".to_string(), 0),
        ("c.txt".to_string(), 0),
        ("a.json".to_string(), 0),
    ];
    assert_eq!(latest_backup(entries), Some("b.json".to_string()));
    assert_eq!(latest_backup(vec![("x.txt".to_string(), 0)]), None);
    assert_eq!(latest_backup(vec![]), None);
}
