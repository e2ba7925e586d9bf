use select2explain::debug_log::{
    current_http_log_path, current_interaction_log_path, current_log_path, format_line, http, init, log,
    redact_bearer_token, redact_prefixed_token, redact_sensitive_tokens, sanitize_multiline, set_enabled,
    trace, truncate_for_log, DebugLogger,
};

fn chars(s: &str) -> Vec<char> {
    s.chars().collect()
}

fn text(v: &[char]) -> String {
    v.iter().collect()
}

#[test]
fn truncate_flattens_and_trims() {
    assert_eq!(truncate_for_log("  line one\r\nline two\nthree\rfour  ", 100), "line one line two three four");
}

#[test]
fn truncate_cuts_long_values() {
    assert_eq!(truncate_for_log("abcdefghij", 4), "abcd...[truncated]");
    assert_eq!(truncate_for_log("abcd", 4), "abcd");
    assert_eq!(truncate_for_log("", 0), "");
}

#[test]
fn truncate_counts_characters_not_bytes() {
    assert_eq!(truncate_for_log("解释选中的文字", 3), "解释选...[truncated]");
}

#[test]
fn truncate_hides_secrets() {
    assert_eq!(
        truncate_for_log("Authorization: Bearer abc123 key=sk-secret", 200),
        "Authorization: Bearer [redacted] key=sk-[redacted]"
    );
}

#[test]
fn bearer_tokens_are_redacted_up_to_a_stop_character() {
    assert_eq!(text(&redact_bearer_token(&chars("x Bearer tok\"en y"))), "x Bearer [redacted]\"en y");
    assert_eq!(text(&redact_bearer_token(&chars("Bearer a,Bearer b)"))), "Bearer [redacted],Bearer [redacted])");
    // an empty token is left as it is
    assert_eq!(text(&redact_bearer_token(&chars("Bearer  next"))), "Bearer  next");
    assert_eq!(text(&redact_bearer_token(&chars("no token here"))), "no token here");
}

#[test]
fn prefixed_tokens_are_always_marked() {
    assert_eq!(text(&redact_prefixed_token(&chars("k=sk-abc'd"), "sk-")), "k=sk-[redacted]'d");
    assert_eq!(text(&redact_prefixed_token(&chars("sk- sk-x"), "sk-")), "sk-[redacted] sk-[redacted]");
}

#[test]
fn redaction_of_both_kinds() {
    assert_eq!(
        text(&redact_sensitive_tokens(&chars("Bearer sk-123 and sk-456"))),
        "Bearer [redacted] and sk-[redacted]"
    );
}

#[test]
fn http_values_keep_line_breaks_visible() {
    assert_eq!(sanitize_multiline("a\r\nb\nc\rd"), "a\\nb\\nc\\rd");
    assert_eq!(sanitize_multiline("{\"key\":\"sk-abc\"}"), "{\"key\":\"sk-[redacted]\"}");
}

#[test]
fn log_lines_have_time_scope_and_message() {
    let line = format_line("scope", "message");
    assert!(line.ends_with(" [scope] message"));
    let stamp = line.trim_end_matches(" [scope] message");
    // %Y-%m-%d %H:%M:%S%.3f
    assert_eq!(stamp.len(), 23);
    assert_eq!(&stamp[4..5], "-");
    assert_eq!(&stamp[10..11], " ");
    assert_eq!(&stamp[19..20], ".");
}

fn logger() -> DebugLogger {
    DebugLogger::new("runtime.log".to_string(), "interaction.log".to_string(), "http.log".to_string())
}

#[test]
fn disabled_logger_writes_nothing() {
    let l = logger();
    assert!(log(Some(&l), "s", "m").is_none());
    assert!(trace(Some(&l), "s", "m").is_none());
    assert!(http(Some(&l), "s", "m").is_none());
    assert!(log(None, "s", "m").is_none());
}

#[test]
fn enabled_logger_writes_to_each_file() {
    let mut l = logger();
    let writes = set_enabled(&mut l, true);
    assert_eq!(writes.len(), 3);
    assert_eq!(writes[0].path, "runtime.log");
    assert_eq!(writes[1].path, "interaction.log");
    assert_eq!(writes[2].path, "http.log");
    assert!(writes[0].line.ends_with(" [debug] debug logging enabled"));
    assert_eq!(writes[0].line, writes[2].line);

    let w = log(Some(&l), "popup", "shown").unwrap();
    assert_eq!(w.path, "runtime.log");
    assert!(w.line.ends_with(" [popup] shown"));
    let w = trace(Some(&l), "popup", "shown").unwrap();
    assert_eq!(w.path, "interaction.log");
    let w = http(Some(&l), "provider", "body\nwith Bearer xyz").unwrap();
    assert_eq!(w.path, "http.log");
    assert!(w.line.ends_with(" [provider] body\\nwith Bearer [redacted]"));

    let writes = set_enabled(&mut l, false);
    assert!(writes[1].line.ends_with(" [debug] debug logging disabled"));
    assert!(log(Some(&l), "s", "m").is_none());
}

#[test]
fn init_keeps_an_existing_logger() {
    let (first, path) = init(None, "a".to_string(), "b".to_string(), "c".to_string());
    assert_eq!(path, "a");
    assert_eq!(first.interaction_path, "b");
    let (kept, path) = init(Some(first), "x".to_string(), "y".to_string(), "z".to_string());
    assert_eq!(path, "x");
    assert_eq!(kept.runtime_path, "a");
    assert_eq!(current_log_path(Some(&kept)), Some("a".to_string()));
    assert_eq!(current_interaction_log_path(Some(&kept)), Some("b".to_string()));
    assert_eq!(current_http_log_path(Some(&kept)), Some("c".to_string()));
    assert_eq!(current_log_path(None), None);
}

#[test]
fn bearer_redaction_twice_changes_nothing_more() {
    for s in ["Authorization: Bearer abc123, next Bearer x", "Bearer ", "no token here", "Bearer  gap"] {
        let once = redact_bearer_token(&chars(s));
        let twice = redact_bearer_token(&once);
        assert_eq!(text(&once), text(&twice));
    }
    assert_eq!(text(&redact_bearer_token(&chars("no token here"))), "no token here");
}
