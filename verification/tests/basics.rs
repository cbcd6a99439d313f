use catdesk_delegated::hash::{stable_hash, stable_text_hash};
use catdesk_delegated::json::{member_in, number_in, text_in, truth_in, JsonValue};
use catdesk_delegated::provider::{
    is_rate_limit_event, is_rate_limit_text, messages_to_json, NormalizedProviderEventKind,
    NormalizedProviderEventV1, ProviderIdV1, ProviderMessageV1, RuntimeError,
};
use catdesk_delegated::contracts::TurnId;
use catdesk_delegated::redaction::{redact_advice, redact_context, redact_output};
use catdesk_delegated::sorting::{dedup_strings, sort_strings};
use catdesk_delegated::text::{
    join, prefix_within, shorten, split_either, split_lines, split_words, to_decimal, to_hex,
    to_lower, trim,
};

#[test]
fn hashes_are_the_known_ones() {
    assert_eq!(stable_text_hash(""), "fnv1a64:cbf29ce484222325");
    assert_eq!(stable_text_hash("a"), "fnv1a64:af63dc4c8601ec8c");
    assert_eq!(stable_hash("a"), stable_text_hash("a"));
}

#[test]
fn text_is_cut_between_characters() {
    assert_eq!(prefix_within("a\u{e9}b", 2), "a");
    assert_eq!(prefix_within("a\u{e9}b", 3), "a\u{e9}");
    assert_eq!(shorten("abcdef", 4), "abcd...");
    assert_eq!(shorten("abcd", 4), "abcd");
}

#[test]
fn text_is_split_as_std_splits_it() {
    let sample = "one  two\r\n\u{a0}three\n\nfour";
    assert_eq!(split_lines(sample), sample.lines().collect::<Vec<_>>());
    assert_eq!(split_words(sample), sample.split_whitespace().collect::<Vec<_>>());
    assert_eq!(trim("\u{2003} x \n"), "\u{2003} x \n".trim());
    assert_eq!(split_either("a/b\\c//", '/', '\\'), vec!["a", "b", "c", "", ""]);
    assert_eq!(to_lower("AbC\u{c9}"), "AbC\u{c9}".to_ascii_lowercase());
    assert_eq!(join(&vec!["a".into(), "b".into()], ", "), "a, b");
    assert_eq!(to_decimal(u64::MAX), u64::MAX.to_string());
    assert_eq!(to_hex(255, 4), "00ff");
}

#[test]
fn lists_are_sorted_and_freed_of_repeats() {
    let list: Vec<String> = ["b", "a", "b", "\u{e9}"].iter().map(|s| s.to_string()).collect();
    let sorted = sort_strings(list);
    assert_eq!(sorted, vec!["a", "b", "b", "\u{e9}"]);
    assert_eq!(dedup_strings(&sorted), vec!["a", "b", "\u{e9}"]);
}

#[test]
fn json_is_read_one_level_at_a_time() {
    let value = JsonValue::Record(vec![
        ("n".into(), "7".into()),
        ("s".into(), "\"a\\\"b\"".into()),
        ("t".into(), "true".into()),
        ("o".into(), "{\"inner\":\"x\"}".into()),
    ]);
    assert_eq!(number_in(&value.get("n")), Some(7));
    assert_eq!(text_in(&value.get("s")).as_deref(), Some("a\"b"));
    assert_eq!(truth_in(&value.get("t")), Some(true));
    assert_eq!(
        text_in(&member_in(&value.get("o"), "inner")).as_deref(),
        Some("x")
    );
    assert_eq!(value.get("missing"), None);
    assert_eq!(number_in(&Some("-1".into())), None);
    assert_eq!(JsonValue::Null.get("x"), None);
}

#[test]
fn secrets_are_taken_out() {
    let value = "a".repeat(16);
    assert_eq!(
        redact_advice(&format!("use Bearer {value} now")),
        "use Bearer <redacted> now"
    );
    assert_eq!(
        redact_advice(&format!("{}_{value} next", "ghp")),
        "<redacted> next"
    );
    assert_eq!(redact_output("api-key = abc next"), "api-key=<redacted> next");
    assert_eq!(redact_context("secret: abc next"), "secret: <redacted> next");
}

#[test]
fn rate_limits_are_recognised() {
    assert!(is_rate_limit_text("Status 429 received"));
    assert!(!is_rate_limit_text("limit of rates"));
    let mut event = NormalizedProviderEventV1 {
        provider_id: "fake".into(),
        turn_id: TurnId::new("turn").expect("turn"),
        kind: NormalizedProviderEventKind::TerminalError,
        text: Some("Rate Limit".into()),
        tool_call: None,
    };
    assert!(is_rate_limit_event(&event));
    event.kind = NormalizedProviderEventKind::TextDelta;
    assert!(!is_rate_limit_event(&event));
}

#[test]
fn messages_and_errors_print_as_expected() {
    let messages = vec![ProviderMessageV1 {
        role: "user".into(),
        content: "line\nbreak".into(),
        tool_call_id: Some("tc-1".into()),
        tool_name: None,
    }];
    assert_eq!(
        messages_to_json(&messages),
        "[{\"role\":\"user\",\"content\":\"line\\nbreak\",\"toolCallId\":\"tc-1\",\"toolName\":null}]"
    );
    for error in [
        RuntimeError::Validation("a\tb".into()),
        RuntimeError::Journal("c".into()),
    ] {
        assert_eq!(error.debug_text(), format!("{error:?}"));
    }
    assert_eq!(ProviderIdV1::CodexCli.as_str(), "codex-cli");
}
