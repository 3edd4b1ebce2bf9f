use bridge_session::chars::{eq_ignore_ascii_case, trim_spaces};
use bridge_session::ids::{push_unique, split_summary_id, worker_channel};
use bridge_session::numbers::parse_i64_or_zero;
use bridge_session::tomlcfg::{
    canonical_config_key, config_snapshot_from_lines, escape_toml_basic_string,
    find_root_insert_index, find_root_key_line_index, first_root_value, parse_toml_string,
    resolve_turn_settings, strip_toml_comment, try_parse_root_toml_key, upsert_root_toml_key,
    ConfigSnapshot,
};

fn s(x: &str) -> String {
    x.to_string()
}

fn lines(ls: &[&str]) -> Vec<String> {
    ls.iter().map(|l| l.to_string()).collect()
}

#[test]
fn strip_comment_cuts_unquoted_hash() {
    assert_eq!(strip_toml_comment("model = \"x\" # note"), "model = \"x\" ");
}

#[test]
fn strip_comment_keeps_hash_inside_quotes() {
    assert_eq!(strip_toml_comment("k = \"a # b\" # c"), "k = \"a # b\" ");
    assert_eq!(strip_toml_comment("k = 'a # b' # c"), "k = 'a # b' ");
}

#[test]
fn strip_comment_respects_escaped_quote() {
    assert_eq!(strip_toml_comment(r#"k = "a \" # b" # c"#), r#"k = "a \" # b" "#);
}

#[test]
fn parse_toml_string_unescapes_basic() {
    assert_eq!(parse_toml_string(r#" "a\nb\tc\\d\"e" "#), "a\nb\tc\\d\"e");
}

#[test]
fn parse_toml_string_literal_and_bare() {
    assert_eq!(parse_toml_string("'a\\nb'"), "a\\nb");
    assert_eq!(parse_toml_string("  bare  "), "bare");
}

#[test]
fn escape_round_trips_through_parse() {
    let original = "a\\b\"c";
    let escaped = escape_toml_basic_string(original);
    assert_eq!(escaped, "a\\\\b\\\"c");
    let quoted = format!("\"{}\"", escaped);
    assert_eq!(parse_toml_string(&quoted), original);
}

#[test]
fn try_parse_root_key_reads_values() {
    assert_eq!(try_parse_root_toml_key("model = \"gpt\" # c", "model"), Some(s("gpt")));
    assert_eq!(try_parse_root_toml_key("# model = \"gpt\"", "model"), None);
    assert_eq!(try_parse_root_toml_key("[section]", "model"), None);
    assert_eq!(try_parse_root_toml_key("model \"gpt\"", "model"), None);
    assert_eq!(try_parse_root_toml_key("model =   ", "model"), None);
}

#[test]
fn find_root_indexes() {
    let ls = lines(&["# top", "model = \"a\"", "", "[profile]", "model = \"b\""]);
    assert_eq!(find_root_insert_index(&ls), 3);
    assert_eq!(find_root_key_line_index(&ls, "model"), Some(1));
    assert_eq!(find_root_key_line_index(&ls, "sandbox_mode"), None);
}

#[test]
fn upsert_inserts_before_first_section() {
    let mut ls = lines(&["# top", "[profile]", "x = 1"]);
    let mut changed = false;
    upsert_root_toml_key(&mut ls, "model", Some(&s("gpt")), &mut changed);
    assert!(changed);
    assert_eq!(ls, lines(&["# top", "model = \"gpt\"", "[profile]", "x = 1"]));
}

#[test]
fn upsert_rewrites_and_removes() {
    let mut ls = lines(&["model = \"old\""]);
    let mut changed = false;
    upsert_root_toml_key(&mut ls, "model", Some(&s("new")), &mut changed);
    assert!(changed);
    assert_eq!(ls, lines(&["model = \"new\""]));
    let mut changed2 = false;
    upsert_root_toml_key(&mut ls, "model", Some(&s("new")), &mut changed2);
    assert!(!changed2);
    upsert_root_toml_key(&mut ls, "model", None, &mut changed2);
    assert!(changed2);
    assert!(ls.is_empty());
}

#[test]
fn canonical_keys_map_aliases() {
    assert_eq!(canonical_config_key("model"), Some(s("model")));
    assert_eq!(canonical_config_key("profile.effort"), Some(s("model_reasoning_effort")));
    assert_eq!(canonical_config_key("modelReasoningEffort"), Some(s("model_reasoning_effort")));
    assert_eq!(canonical_config_key("approvalPolicy"), Some(s("approval_policy")));
    assert_eq!(canonical_config_key(" sandbox "), Some(s("sandbox_mode")));
    assert_eq!(canonical_config_key("sandboxMode"), Some(s("sandbox_mode")));
    assert_eq!(canonical_config_key(""), None);
    assert_eq!(canonical_config_key("unknown"), None);
}

#[test]
fn snapshot_reads_only_root_section() {
    let ls = lines(&[
        "model = \"gpt\"",
        "model_reasoning_effort = \"high\"",
        "[profiles]",
        "approval_policy = \"never\"",
    ]);
    let snap = config_snapshot_from_lines(&ls);
    assert_eq!(snap.model, Some(s("gpt")));
    assert_eq!(snap.model_reasoning_effort, Some(s("high")));
    assert_eq!(snap.approval_policy, None);
    assert_eq!(snap.sandbox_mode, None);
    assert_eq!(first_root_value(&ls, "model"), Some(s("gpt")));
}

#[test]
fn turn_settings_fallback_chain() {
    let config = ConfigSnapshot {
        model: Some(s("cfg-model")),
        model_reasoning_effort: None,
        approval_policy: Some(s("cfg-approval")),
        sandbox_mode: None,
    };
    let settings = resolve_turn_settings(
        &None,
        &None,
        &None,
        &Some(s("param-sandbox")),
        &Some(s("sess-approval")),
        &Some(s("sess-sandbox")),
        &config,
    );
    assert_eq!(settings.model, "cfg-model");
    assert_eq!(settings.effort, "medium");
    assert_eq!(settings.approval_policy, "sess-approval");
    assert_eq!(settings.sandbox_mode, "param-sandbox");

    let empty = ConfigSnapshot {
        model: None,
        model_reasoning_effort: None,
        approval_policy: None,
        sandbox_mode: None,
    };
    let defaults = resolve_turn_settings(&None, &None, &None, &None, &None, &None, &empty);
    assert_eq!(defaults.model, "gpt-5.2-codex");
    assert_eq!(defaults.effort, "medium");
    assert_eq!(defaults.approval_policy, "on-request");
    assert_eq!(defaults.sandbox_mode, "workspace-write");
}

#[test]
fn trim_and_case_helpers() {
    assert_eq!(trim_spaces(&s("  a b \t\r\n")), "a b");
    assert_eq!(trim_spaces(&s("   ")), "");
    assert!(eq_ignore_ascii_case(&s("FileChange"), &s("filechange")));
    assert!(!eq_ignore_ascii_case(&s("abc"), &s("abd")));
}

#[test]
fn worker_channel_name() {
    assert_eq!(worker_channel(&s("w1")), "codex_desktop:worker:w1:for-view");
}

#[test]
fn push_unique_skips_duplicates() {
    let mut v = vec![s("a"), s("b")];
    push_unique(&mut v, s("a"));
    assert_eq!(v, vec![s("a"), s("b")]);
    push_unique(&mut v, s("c"));
    assert_eq!(v, vec![s("a"), s("b"), s("c")]);
}

#[test]
fn split_summary_id_cases() {
    assert_eq!(split_summary_id(&s("r1_summary_2")), Some((s("r1"), s("2"))));
    assert_eq!(split_summary_id(&s("a_summary_1_summary_2")), Some((s("a_summary_1"), s("2"))));
    assert_eq!(split_summary_id(&s("r1")), None);
}

#[test]
fn parse_i64_cases() {
    assert_eq!(parse_i64_or_zero(&s("2")), 2);
    assert_eq!(parse_i64_or_zero(&s("-17")), -17);
    assert_eq!(parse_i64_or_zero(&s("+8")), 8);
    assert_eq!(parse_i64_or_zero(&s("007")), 7);
    assert_eq!(parse_i64_or_zero(&s("")), 0);
    assert_eq!(parse_i64_or_zero(&s("x")), 0);
    assert_eq!(parse_i64_or_zero(&s("12x")), 0);
    assert_eq!(parse_i64_or_zero(&s("9223372036854775807")), i64::MAX);
    assert_eq!(parse_i64_or_zero(&s("-9223372036854775808")), i64::MIN);
    assert_eq!(parse_i64_or_zero(&s("9223372036854775808")), 0);
    assert_eq!(parse_i64_or_zero(&s("99999999999999999999999")), 0);
}
