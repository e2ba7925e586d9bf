use select2explain::monitor::{popup_fallback_position, popup_target_size, MouseReleaseGate, monitor_pause_status};
use select2explain::state::{
    normalize_ai_wait_ms, normalized_settings, toggle_translation_enabled, ProviderSettings, RuntimeState,
    DEFAULT_MAX_AI_WAIT_MS, MAX_AI_WAIT_MS, MIN_AI_WAIT_MS,
};

#[test]
fn wait_is_clamped() {
    assert_eq!(normalize_ai_wait_ms(0), MIN_AI_WAIT_MS);
    assert_eq!(normalize_ai_wait_ms(4_999), 5_000);
    assert_eq!(normalize_ai_wait_ms(30_000), 30_000);
    assert_eq!(normalize_ai_wait_ms(120_001), MAX_AI_WAIT_MS);
    assert_eq!(normalize_ai_wait_ms(u64::MAX), 120_000);
    // normalizing twice changes nothing more
    assert_eq!(normalize_ai_wait_ms(normalize_ai_wait_ms(1)), normalize_ai_wait_ms(1));
}

#[test]
fn default_settings() {
    let s = ProviderSettings::default();
    assert_eq!(s.base_url, "https://openrouter.ai/api/v1");
    assert_eq!(s.model, "x-ai/grok-4.1-fast");
    assert!(!s.translation_enabled);
    assert!(!s.debug_logging_enabled);
    assert_eq!(s.max_ai_wait_ms, DEFAULT_MAX_AI_WAIT_MS);
}

#[test]
fn saved_settings_are_normalized() {
    let mut s = ProviderSettings::default();
    s.max_ai_wait_ms = 1;
    s.model = "m".to_string();
    let n = normalized_settings(s);
    assert_eq!(n.max_ai_wait_ms, 5_000);
    assert_eq!(n.model, "m");
}

#[test]
fn hotkey_toggles_twice_back() {
    let mut s = ProviderSettings::default();
    toggle_translation_enabled(&mut s);
    assert!(s.translation_enabled);
    toggle_translation_enabled(&mut s);
    assert!(!s.translation_enabled);
}

#[test]
fn same_selection_is_not_requested_twice() {
    let mut r = RuntimeState::new();
    let sig = "notepad|doc|hello".to_string();
    let id = r.begin_request(&sig).unwrap();
    assert_eq!(id, 1);
    assert!(r.in_flight);
    // while in flight nothing starts
    assert_eq!(r.begin_request(&"other|x|y".to_string()), None);
    assert!(r.finish_request(id));
    assert!(!r.in_flight);
    // same signature again: ignored
    assert_eq!(r.begin_request(&sig), None);
    // a new selection starts a new request
    assert_eq!(r.begin_request(&"notepad|doc|world".to_string()), Some(2));
}

#[test]
fn forgotten_selection_triggers_again() {
    let mut r = RuntimeState::new();
    let sig = "a|b|c".to_string();
    let id = r.begin_request(&sig).unwrap();
    r.finish_request(id);
    r.reset_selection_signature();
    assert_eq!(r.last_selection_signature, "");
    assert_eq!(r.begin_request(&sig), Some(id + 1));
}

#[test]
fn cancel_makes_the_request_stale() {
    let mut r = RuntimeState::new();
    let id = r.begin_request(&"a|b|c".to_string()).unwrap();
    r.mark_popup_revealed(true, 10);
    r.cancel_request();
    assert!(!r.request_is_current(id));
    assert!(!r.in_flight);
    assert!(!r.popup_interactive);
    assert_eq!(r.popup_last_revealed_at_ms, None);
    assert_eq!(r.last_selection_signature, "");
    // the stale request's end changes nothing
    r.in_flight = true;
    assert!(!r.finish_request(id));
    assert!(r.in_flight);
}

#[test]
fn request_ids_wrap() {
    let mut r = RuntimeState::new();
    r.active_request_id = u64::MAX;
    assert_eq!(r.begin_request(&"x".to_string()), Some(0));
}

#[test]
fn monitor_status_changes_are_reported_once() {
    let mut r = RuntimeState::new();
    assert!(r.update_monitor_status("translation-disabled"));
    assert!(!r.update_monitor_status("translation-disabled"));
    assert!(r.update_monitor_status("waiting-mouse-release"));
    assert_eq!(r.monitor_status, "waiting-mouse-release");
}

#[test]
fn unfocused_popup_hides_after_grace() {
    let mut r = RuntimeState::new();
    r.mark_popup_revealed(true, 1_000);
    assert!(!r.should_hide_unfocused_popup(false, 1_220));
    assert!(r.should_hide_unfocused_popup(false, 1_221));
    assert!(!r.should_hide_unfocused_popup(true, 5_000));
    // the loading popup is not interactive and stays
    r.mark_popup_revealed(false, 1_000);
    assert!(!r.should_hide_unfocused_popup(false, 9_000));
    r.mark_popup_hidden();
    assert!(!r.popup_interactive);
    assert_eq!(r.popup_last_revealed_at_ms, None);
}

#[test]
fn mouse_release_probes_once_after_debounce() {
    let mut g = MouseReleaseGate::new();
    assert!(!g.should_probe_after_mouse_release(false, 0));
    assert!(!g.should_probe_after_mouse_release(true, 10));
    assert!(!g.should_probe_after_mouse_release(true, 35));
    assert!(!g.should_probe_after_mouse_release(false, 60));
    assert!(!g.should_probe_after_mouse_release(false, 179));
    assert!(g.should_probe_after_mouse_release(false, 180));
    assert!(!g.should_probe_after_mouse_release(false, 500));
}

#[test]
fn press_during_debounce_cancels_the_probe() {
    let mut g = MouseReleaseGate::new();
    g.should_probe_after_mouse_release(true, 0);
    g.should_probe_after_mouse_release(false, 25);
    g.should_probe_after_mouse_release(true, 50);
    assert_eq!(g.pending_release_at_ms, None);
    g.reset_mouse_release_gate();
    assert!(!g.primary_button_down);
    assert!(!g.should_probe_after_mouse_release(false, 1_000));
}

#[test]
fn monitor_pauses() {
    assert_eq!(monitor_pause_status(true, true), Some("main-window-focused"));
    assert_eq!(monitor_pause_status(false, false), Some("translation-disabled"));
    assert_eq!(monitor_pause_status(false, true), None);
}

#[test]
fn popup_position_is_above_right_of_the_cursor() {
    assert_eq!(popup_fallback_position(100, 200), (118, 182));
    assert_eq!(popup_fallback_position(100, 10), (118, 8));
    assert_eq!(popup_fallback_position(i32::MAX, i32::MIN), (i32::MAX, 8));
}

#[test]
fn popup_size_has_a_minimum() {
    assert_eq!(popup_target_size(100, 100), (320, 168));
    assert_eq!(popup_target_size(500, 600), (500, 600));
}
