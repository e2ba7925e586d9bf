use select2explain::monitor::{
    pause_tick, probe_tick, required_api_key, usable_api_key, MouseReleaseGate, PopupEmit, SelectionTask, TaskStage,
    DELETED_API_KEY,
};
use select2explain::platform::{CursorPoint, SelectionProbe};
use select2explain::state::RuntimeState;

fn probe_of(app: &str, title: &str, signature: &str) -> SelectionProbe {
    SelectionProbe {
        selected_text: "word".to_string(),
        selection_signature: signature.to_string(),
        source_app: app.to_string(),
        window_title: title.to_string(),
        cursor: CursorPoint { x: 1, y: 2 },
        selection_method: "uia-focused".to_string(),
    }
}

#[test]
fn paused_tick_forgets_selection_and_mouse() {
    let mut rt = RuntimeState::new();
    rt.last_selection_signature = "app|t|word".to_string();
    let mut gate = MouseReleaseGate::new();
    gate.primary_button_down = true;
    gate.pending_release_at_ms = Some(5);

    assert_eq!(pause_tick(&mut rt, &mut gate, true, true), Some("main-window-focused"));
    assert_eq!(rt.last_selection_signature, "");
    assert!(!gate.primary_button_down);
    assert_eq!(gate.pending_release_at_ms, None);

    rt.last_selection_signature = "x".to_string();
    gate.pending_release_at_ms = Some(9);
    assert_eq!(pause_tick(&mut rt, &mut gate, false, false), Some("translation-disabled"));
    assert_eq!(rt.last_selection_signature, "");
    assert_eq!(gate.pending_release_at_ms, None);
}

#[test]
fn running_tick_changes_nothing() {
    let mut rt = RuntimeState::new();
    rt.last_selection_signature = "keep".to_string();
    let mut gate = MouseReleaseGate::new();
    gate.pending_release_at_ms = Some(3);
    assert_eq!(pause_tick(&mut rt, &mut gate, false, true), None);
    assert_eq!(rt.last_selection_signature, "keep");
    assert_eq!(gate.pending_release_at_ms, Some(3));
}

#[test]
fn probe_steps() {
    let mut rt = RuntimeState::new();
    rt.last_selection_signature = "old".to_string();
    assert_eq!(probe_tick(&mut rt, None), None);
    assert_eq!(rt.last_selection_signature, "");

    let own = probe_of("Select2Explain", "whatever", "own|sig");
    assert_eq!(probe_tick(&mut rt, Some(&own)), None);
    assert!(!rt.in_flight);

    let other = probe_of("notepad", "doc", "notepad|doc|word");
    assert_eq!(probe_tick(&mut rt, Some(&other)), Some(1));
    assert!(rt.in_flight);
    assert_eq!(rt.last_selection_signature, "notepad|doc|word");
    // a second probe while the request runs starts nothing
    assert_eq!(probe_tick(&mut rt, Some(&probe_of("a", "b", "a|b|c"))), None);
}

#[test]
fn selection_task_shows_loading_then_answer() {
    let mut rt = RuntimeState::new();
    let id = probe_tick(&mut rt, Some(&probe_of("a", "b", "a|b|c"))).unwrap();
    let mut task = SelectionTask::new(id);
    assert_eq!(task.after_capture(&rt, true), PopupEmit::Loading);
    assert_eq!(task.stage, TaskStage::Explaining);
    assert_eq!(task.after_answer(&rt), PopupEmit::Show);
    assert_eq!(task.stage, TaskStage::Done);
    assert!(task.finish(&mut rt));
    assert!(!rt.in_flight);
}

#[test]
fn failed_capture_shows_the_error() {
    let mut rt = RuntimeState::new();
    let id = probe_tick(&mut rt, Some(&probe_of("a", "b", "a|b|c"))).unwrap();
    let mut task = SelectionTask::new(id);
    assert_eq!(task.after_capture(&rt, false), PopupEmit::Show);
    assert_eq!(task.stage, TaskStage::Done);
    assert!(task.finish(&mut rt));
}

#[test]
fn stale_task_shows_nothing_and_changes_nothing() {
    let mut rt = RuntimeState::new();
    let id = probe_tick(&mut rt, Some(&probe_of("a", "b", "a|b|c"))).unwrap();
    let mut task = SelectionTask::new(id);
    assert_eq!(task.after_capture(&rt, true), PopupEmit::Loading);
    rt.cancel_request();
    assert_eq!(task.after_answer(&rt), PopupEmit::Nothing);
    let before_id = rt.active_request_id;
    assert!(!task.finish(&mut rt));
    assert_eq!(rt.active_request_id, before_id);

    let mut late = SelectionTask::new(id);
    assert_eq!(late.after_capture(&rt, true), PopupEmit::Nothing);
    assert_eq!(late.stage, TaskStage::Done);
}

#[test]
fn deleted_key_is_not_configured() {
    assert_eq!(usable_api_key(Some(DELETED_API_KEY.to_string())), None);
    assert_eq!(required_api_key(Some(DELETED_API_KEY.to_string())), Err("API key not configured".to_string()));
    assert_eq!(required_api_key(Some("  ".to_string())), Err("API key not configured".to_string()));
    assert_eq!(required_api_key(None), Err("API key not configured".to_string()));
    assert_eq!(required_api_key(Some("sk-abc".to_string())), Ok("sk-abc".to_string()));
}
