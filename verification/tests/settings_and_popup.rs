use select2explain::monitor::{
    capture_error_payload, explain_selection_input, loading_payload, merge_probe_fallback, pipeline_error_message,
    popup_payload, timeout_error_message, usable_api_key,
};
use select2explain::platform::{CursorPoint, SelectionContext, SelectionProbe, WindowRect};
use select2explain::settings_store::{load_settings, migrate_legacy_defaults};
use select2explain::state::ProviderSettings;

fn stored(model: &str, wait: u64) -> ProviderSettings {
    ProviderSettings {
        base_url: "http://x".to_string(),
        model: model.to_string(),
        translation_enabled: true,
        debug_logging_enabled: true,
        max_ai_wait_ms: wait,
    }
}

#[test]
fn legacy_models_are_migrated() {
    for old in ["qwen/qwen2.5-vl-72b-instruct", "google/gemini-2.5-flash-lite", "  "] {
        let mut s = stored(old, 1);
        migrate_legacy_defaults(&mut s);
        assert_eq!(s.model, "x-ai/grok-4.1-fast");
        assert_eq!(s.max_ai_wait_ms, 5_000);
    }
    let mut s = stored("my/model", 200_000);
    migrate_legacy_defaults(&mut s);
    assert_eq!(s.model, "my/model");
    assert_eq!(s.max_ai_wait_ms, 120_000);
}

#[test]
fn loading_settings() {
    let (s, save) = load_settings(None);
    assert_eq!(s.model, "x-ai/grok-4.1-fast");
    assert!(!save);
    let (s, save) = load_settings(Some(stored("qwen/qwen2.5-vl-72b-instruct", 9_000)));
    assert!(save);
    assert_eq!(s.model, "x-ai/grok-4.1-fast");
    assert_eq!(s.base_url, "http://x");
    assert!(s.translation_enabled);
    let (_, save) = load_settings(Some(stored("my/model", 1)));
    assert!(!save);
}

#[test]
fn blank_api_keys_do_not_count() {
    assert_eq!(usable_api_key(Some("  ".to_string())), None);
    assert_eq!(usable_api_key(None), None);
    assert_eq!(usable_api_key(Some("sk-1".to_string())), Some("sk-1".to_string()));
}

fn probe() -> SelectionProbe {
    SelectionProbe {
        selected_text: "word".to_string(),
        selection_signature: "app|title|word".to_string(),
        source_app: "app".to_string(),
        window_title: "title".to_string(),
        cursor: CursorPoint { x: 7, y: 8 },
        selection_method: "uia-focused".to_string(),
    }
}

fn context(text: &str, method: &str) -> SelectionContext {
    SelectionContext {
        selected_text: text.to_string(),
        selection_signature: format!("app2|t2|{text}"),
        source_app: "app2".to_string(),
        window_title: "t2".to_string(),
        cursor: CursorPoint { x: 1, y: 2 },
        window_rect: WindowRect { x: 0, y: 0, width: 5, height: 5 },
        selection_method: method.to_string(),
        window_text: "all of it".to_string(),
        screenshot_base64: String::new(),
        screenshot_mime: String::new(),
    }
}

#[test]
fn probe_stands_in_for_a_missing_capture() {
    let m = merge_probe_fallback(&probe(), None);
    assert_eq!(m.selected_text, "word");
    assert_eq!(m.selection_method, "uia-focused");
    assert_eq!(m.window_text, "");
    assert_eq!((m.cursor.x, m.cursor.y), (7, 8));
    let m = merge_probe_fallback(&probe(), Some(context(" ", "")));
    assert_eq!(m.selected_text, "word");
    assert_eq!(m.selection_signature, "app|title|word");
    assert_eq!(m.selection_method, "probe-fallback");
    assert_eq!(m.source_app, "app2");
    let m = merge_probe_fallback(&probe(), Some(context("", "clipboard-copy")));
    assert_eq!(m.selection_method, "clipboard-copy/probe-fallback");
    let m = merge_probe_fallback(&probe(), Some(context("other", "uia-descendant")));
    assert_eq!(m.selected_text, "other");
    assert_eq!(m.selection_method, "uia-descendant");
}

#[test]
fn popup_payloads() {
    let c = context("word", "m");
    let l = loading_payload(&c, 15_000);
    assert_eq!((l.cursor_x, l.cursor_y, l.max_wait_ms), (1, 2, 15_000));
    let p = popup_payload(&c, Ok(("means".to_string(), 42)));
    assert_eq!((p.explanation.as_str(), p.latency_ms, p.error.as_str()), ("means", 42, ""));
    let p = popup_payload(&c, Err("boom".to_string()));
    assert_eq!((p.explanation.as_str(), p.latency_ms, p.error.as_str()), ("", 0, "boom"));
    let p = capture_error_payload(&probe(), "capture failed: x".to_string());
    assert_eq!((p.selected_text.as_str(), p.cursor_x, p.error.as_str()), ("word", 7, "capture failed: x"));
}

#[test]
fn error_messages() {
    assert_eq!(timeout_error_message(15_000), "AI 请求超时（15 秒），已自动取消。");
    assert_eq!(timeout_error_message(5_999), "AI 请求超时（5 秒），已自动取消。");
    assert_eq!(pipeline_error_message("request failed"), "AI pipeline error: request failed");
}

#[test]
fn manual_explanation_input() {
    let (app, input) = explain_selection_input(Some(context("  ", "m")), "typed".to_string());
    assert_eq!(app, Some("app2".to_string()));
    assert_eq!(input.selected_text, "typed");
    assert_eq!(input.window_text, "all of it");
    let (app, input) = explain_selection_input(None, "typed".to_string());
    assert_eq!(app, None);
    assert_eq!(input.window_text, "");
}

#[test]
fn saved_settings_come_back_unchanged() {
    let (s, save) = load_settings(Some(stored("my/model", 30_000)));
    assert!(!save);
    assert_eq!(s.base_url, "http://x");
    assert_eq!(s.model, "my/model");
    assert!(s.translation_enabled);
    assert!(s.debug_logging_enabled);
    assert_eq!(s.max_ai_wait_ms, 30_000);
}
