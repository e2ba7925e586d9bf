use select2explain::platform::macos;
use select2explain::platform::windows::{
    bgra_to_rgba, bitmap_pixels_to_png, capture_context, choose_selection, cursor_or_window_corner, joined_len,
    needs_clipboard_fallback, needs_descendant_scan, normalize_text, poll_selection, push_unique_text,
    read_pattern_text, selection_from_ranges, source_app_name, window_rect_from_bounds, CaptureEnvelope,
    CaptureMode, SelectionData, WindowTextCollector,
};
use select2explain::platform::{
    is_our_window, log_empty_probe_once, primary_mouse_button_pressed, selection_signature, CursorPoint, WindowRect,
};
use select2explain::screenshot::capture_frontmost_window;

#[test]
fn own_windows_are_recognized() {
    assert!(is_our_window("Select2Explain", "anything"));
    assert!(is_our_window("other", "  Select2Explain Popup "));
    assert!(is_our_window("other", "SELECT2EXPLAIN"));
    assert!(!is_our_window("notepad", "Select2Explain notes"));
}

#[test]
fn key_state_high_bit_means_pressed() {
    assert!(primary_mouse_button_pressed(i16::MIN));
    assert!(primary_mouse_button_pressed(-1));
    assert!(!primary_mouse_button_pressed(1));
    assert!(!primary_mouse_button_pressed(0));
}

#[test]
fn signatures_join_app_title_and_text() {
    assert_eq!(selection_signature("code", "main.rs", "fn"), "code|main.rs|fn");
}

#[test]
fn empty_probe_logged_once_per_window() {
    let mut last = String::new();
    assert!(log_empty_probe_once(&mut last, "notepad", "a.txt"));
    assert!(!log_empty_probe_once(&mut last, "notepad", "a.txt"));
    assert!(log_empty_probe_once(&mut last, "notepad", "b.txt"));
    assert_eq!(last, "notepad|b.txt");
}

#[test]
fn normalize_drops_blank_lines_and_trims() {
    assert_eq!(normalize_text("  a  \r\n\r\n b\rc\n\n  ", 0), "a\nb\nc");
    assert_eq!(normalize_text("abcdef", 3), "abc");
    assert_eq!(normalize_text("   ", 10), "");
    assert_eq!(normalize_text("第一行\n第二行", 4), "第一行\n");
}

#[test]
fn unique_texts_are_gathered() {
    let mut values: Vec<String> = Vec::new();
    push_unique_text(&mut values, Some(" title ".to_string()), 512);
    push_unique_text(&mut values, Some("title".to_string()), 512);
    push_unique_text(&mut values, Some("x".to_string()), 512);
    push_unique_text(&mut values, None, 512);
    // a single non-ASCII character is two bytes or more
    push_unique_text(&mut values, Some("é".to_string()), 512);
    assert_eq!(values, vec!["title".to_string(), "é".to_string()]);
    assert_eq!(joined_len(&values), 5 + 1 + 2);
    assert_eq!(joined_len(&[]), 0);
}

#[test]
fn window_text_stops_at_the_limit() {
    let mut c = WindowTextCollector::new();
    c.push_root(Some("Window".to_string()), 512);
    c.push_root(None, 3000);
    assert!(!c.is_full());
    let long = "z".repeat(512);
    let mut taken = 0;
    for i in 0..40 {
        if !c.push_descendant(Some(format!("{i}{long}")), 512) {
            break;
        }
        taken += 1;
    }
    assert!(c.is_full());
    // 6 bytes, then 512-byte texts joined with new lines: the 24th reaches 12000
    assert_eq!(taken, 24);
    let text = c.finish();
    assert_eq!(text.chars().count(), 12_000);
    assert!(text.starts_with("Window\n0zz"));
}

#[test]
fn selection_ranges_are_joined() {
    assert_eq!(selection_from_ranges(vec![" one ".to_string(), "".to_string(), "two".to_string()]), Some("one\ntwo".to_string()));
    assert_eq!(selection_from_ranges(vec!["  ".to_string()]), None);
    assert_eq!(selection_from_ranges(vec![]), None);
}

#[test]
fn pattern_texts_are_normalized() {
    assert_eq!(read_pattern_text(Some(" v ".to_string()), 512), Some("v".to_string()));
    assert_eq!(read_pattern_text(Some(" \n ".to_string()), 512), None);
    assert_eq!(read_pattern_text(None, 512), None);
}

#[test]
fn capture_modes() {
    assert_eq!(CaptureMode::Probe.as_str(), "probe");
    assert_eq!(CaptureMode::Full.as_str(), "full");
    assert!(CaptureMode::Probe.include_descendants());
    assert!(!CaptureMode::Probe.allow_clipboard_fallback());
    assert!(CaptureMode::Full.include_window_text());
    assert!(!CaptureMode::Full.include_screenshot());
}

#[test]
fn selection_preference_order() {
    let s = choose_selection(CaptureMode::Full, Some("f".to_string()), Some("d".to_string()), Some("c".to_string()));
    assert_eq!((s.text.as_str(), s.method.as_str()), ("f", "uia-focused"));
    let s = choose_selection(CaptureMode::Full, None, Some("d".to_string()), Some("c".to_string()));
    assert_eq!((s.text.as_str(), s.method.as_str()), ("d", "uia-descendant"));
    let s = choose_selection(CaptureMode::Full, None, None, Some("c".to_string()));
    assert_eq!((s.text.as_str(), s.method.as_str()), ("c", "clipboard-copy"));
    let s = choose_selection(CaptureMode::Probe, None, None, Some("c".to_string()));
    assert_eq!((s.text.as_str(), s.method.as_str()), ("", ""));
    let s = choose_selection(CaptureMode::Full, None, None, Some(String::new()));
    assert_eq!((s.text.as_str(), s.method.as_str()), ("", ""));
    assert!(needs_descendant_scan(CaptureMode::Probe, &None));
    assert!(!needs_descendant_scan(CaptureMode::Probe, &Some("x".to_string())));
    assert!(!needs_clipboard_fallback(CaptureMode::Probe, &None, &None));
    assert!(needs_clipboard_fallback(CaptureMode::Full, &None, &None));
}

#[test]
fn window_geometry_and_names() {
    let r = window_rect_from_bounds(10, 20, 110, 20);
    assert_eq!((r.x, r.y, r.width, r.height), (10, 20, 100, 1));
    assert_eq!(source_app_name(None, 4242), "pid-4242");
    assert_eq!(source_app_name(Some("Code".to_string()), 1), "Code");
    let c = cursor_or_window_corner(None, &WindowRect { x: 5, y: 6, width: 1, height: 1 });
    assert_eq!((c.x, c.y), (5, 6));
}

fn envelope(text: &str) -> CaptureEnvelope {
    CaptureEnvelope::new(
        "Code".to_string(),
        "main.rs".to_string(),
        CursorPoint { x: 1, y: 2 },
        WindowRect { x: 0, y: 0, width: 10, height: 10 },
        SelectionData { text: text.to_string(), method: "uia-focused".to_string() },
        "window text".to_string(),
        String::new(),
        String::new(),
    )
}

#[test]
fn probe_reports_trimmed_selection() {
    let env = envelope(" fn main ");
    assert_eq!(env.selection_signature, "Code|main.rs| fn main ");
    let p = poll_selection(env).unwrap();
    assert_eq!(p.selected_text, "fn main");
    assert_eq!(p.selection_signature, "Code|main.rs| fn main ");
    assert_eq!(p.selection_method, "uia-focused");
    assert!(poll_selection(envelope("  ")).is_none());
}

#[test]
fn full_capture_always_reports() {
    let c = capture_context(envelope("  ")).unwrap();
    assert_eq!(c.selected_text, "");
    assert_eq!(c.window_text, "window text");
    let c = capture_context(envelope("x ")).unwrap();
    assert_eq!(c.selected_text, "x");
}

#[test]
fn macos_answers() {
    assert_eq!(macos::osascript_answer("  Safari \n"), Some("Safari".to_string()));
    assert_eq!(macos::osascript_answer(" \n"), None);
    assert_eq!(macos::get_selected_text(Some("  ".to_string())), None);
    assert_eq!(macos::get_window_text(Some(" text ".to_string())), Some(" text ".to_string()));
    assert_eq!(macos::active_window_title(None), None);
    assert_eq!(macos::active_app_name(None), "Unknown");
    assert!(macos::has_selection(&Some(" x ".to_string())));
    assert!(!macos::has_selection(&None));
}

#[test]
fn macos_probe_and_capture() {
    assert!(macos::poll_selection("Safari".to_string(), None, Some("  ".to_string()), None).is_none());
    let p = macos::poll_selection("Safari".to_string(), None, Some(" word ".to_string()), None).unwrap();
    assert_eq!(p.selected_text, "word");
    assert_eq!(p.window_title, "");
    assert_eq!(p.selection_signature, "Safari||word");
    assert_eq!((p.cursor.x, p.cursor.y), (0, 0));
    assert_eq!(p.selection_method, "accessibility");
    let c = macos::capture_context(
        "Safari".to_string(),
        Some("Page".to_string()),
        Some("word".to_string()),
        Some(CursorPoint { x: 3, y: 4 }),
        None,
        "AAAA".to_string(),
        "image/png".to_string(),
    )
    .unwrap();
    assert_eq!(c.selection_signature, "Safari|Page|word");
    assert_eq!(c.window_text, "");
    assert_eq!((c.window_rect.width, c.window_rect.height), (0, 0));
    assert_eq!(c.screenshot_base64, "AAAA");
}

#[test]
fn screenshots_are_base64_png() {
    let (b64, mime) = capture_frontmost_window(b"hello");
    assert_eq!(b64, "aGVsbG8=");
    assert_eq!(mime, "image/png");
    assert_eq!(capture_frontmost_window(b"").0, "");
    assert_eq!(capture_frontmost_window(&[0xff, 0xfe]).0, "//4=");
}

#[test]
fn pixels_are_swapped_and_encoded() {
    let mut p = vec![1u8, 2, 3, 4, 5, 6, 7, 8, 9];
    bgra_to_rgba(&mut p);
    assert_eq!(p, vec![3, 2, 1, 4, 7, 6, 5, 8, 9]);
    let png = bitmap_pixels_to_png(vec![0u8, 0, 255, 255], 1, 1).unwrap();
    assert_eq!(&png[..8], &[0x89, b'P', b'N', b'G', 0x0d, 0x0a, 0x1a, 0x0a]);
    assert_ne!(png, vec![0u8, 0, 255, 255]);
}
