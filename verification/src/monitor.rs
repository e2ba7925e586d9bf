//! The selection monitor's decisions: when a mouse release triggers a probe, what the popup is
//! sent, and where it appears.
use vstd::prelude::*;
use crate::ai_pipeline::PipelineInput;
use crate::platform::{CursorPoint, SelectionContext, SelectionProbe, WindowRect};
use crate::platform::{is_our_window, is_own_window};
use crate::state::{spec_begin, spec_finish, spec_reset_signature, PopupLoadingPayload, PopupPayload, RuntimeState, RuntimeView};
use crate::text::{chars_of, decimal, is_blank, push_decimal, push_str, str_is_blank, string_of};

verus! {

/// How long the primary button must stay up after a release before the selection is probed,
/// in milliseconds.
pub const MOUSE_RELEASE_DEBOUNCE_MS: u64 = 120;

/// Follows the primary mouse button between monitor ticks.
pub struct MouseReleaseGate {
    pub primary_button_down: bool,
    /// When the last release was seen, in milliseconds on the caller's monotonic clock.
    pub pending_release_at_ms: Option<u64>,
}

/// The tracker as plain values: button held, pending release.
pub type GateView = (bool, Option<u64>);

impl View for MouseReleaseGate {
    type V = GateView;

    open spec fn view(&self) -> GateView {
        (self.primary_button_down, self.pending_release_at_ms)
    }
}

/// One tick of the release tracker: the new state, and whether the selection should be probed now.
/// Pressing the button forgets a pending release; releasing it starts the wait; the probe
/// comes on the first tick at least `MOUSE_RELEASE_DEBOUNCE_MS` after the release.
pub open spec fn gate_step(g: GateView, primary_down: bool, now_ms: u64) -> (GateView, bool) {
    if primary_down {
        if !g.0 {
            ((true, None), false)
        } else {
            ((true, g.1), false)
        }
    } else if g.0 {
        ((false, Some(now_ms)), false)
    } else {
        match g.1 {
            Some(t) => if now_ms >= t && now_ms - t < MOUSE_RELEASE_DEBOUNCE_MS {
                (g, false)
            } else if now_ms < t {
                (g, false)
            } else {
                ((false, None), true)
            },
            None => (g, false),
        }
    }
}

impl MouseReleaseGate {
    /// A tracker that has seen nothing.
    pub fn new() -> (r: MouseReleaseGate)
        ensures
            r@ == (false, None::<u64>),
    {
        MouseReleaseGate { primary_button_down: false, pending_release_at_ms: None }
    }

    /// Forgets the button's state, as when the monitor pauses.
    pub fn reset_mouse_release_gate(&mut self)
        ensures
            final(self)@ == (false, None::<u64>),
    {
        self.primary_button_down = false;
        self.pending_release_at_ms = None;
    }

    /// Feeds one reading of the primary button; returns whether the selection should be
    /// probed now.
    pub fn should_probe_after_mouse_release(&mut self, primary_down: bool, now_ms: u64) -> (r: bool)
        ensures
            (final(self)@, r) == gate_step(old(self)@, primary_down, now_ms),
    {
        if primary_down {
            if !self.primary_button_down {
                self.pending_release_at_ms = None;
            }
            self.primary_button_down = true;
            return false;
        }
        if self.primary_button_down {
            self.primary_button_down = false;
            self.pending_release_at_ms = Some(now_ms);
            return false;
        }
        match self.pending_release_at_ms {
            Some(t) => {
                if now_ms < t || now_ms - t < MOUSE_RELEASE_DEBOUNCE_MS {
                    return false;
                }
                self.pending_release_at_ms = None;
                true
            },
            None => false,
        }
    }
}

/// A probe fires only once the button is up, after a release seen at least
/// `MOUSE_RELEASE_DEBOUNCE_MS` earlier; and it fires once per release: the next tick without
/// a new press and release does not fire again.
pub proof fn probe_once_per_release(g: GateView, primary_down: bool, now_ms: u64, later_ms: u64, down_later: bool)
    requires
        gate_step(g, primary_down, now_ms).1,
    ensures
        !primary_down,
        !g.0,
        g.1 matches Some(t) && t <= now_ms && now_ms - t >= MOUSE_RELEASE_DEBOUNCE_MS,
        !gate_step(gate_step(g, primary_down, now_ms).0, down_later, later_ms).1,
{
}

/// A press followed by a release and a tick at least `MOUSE_RELEASE_DEBOUNCE_MS` later, with
/// the button still up, probes.
pub proof fn press_release_then_probe(g: GateView, pressed_at: u64, released_at: u64, now_ms: u64)
    requires
        released_at <= now_ms,
        now_ms - released_at >= MOUSE_RELEASE_DEBOUNCE_MS,
    ensures
        ({
            let after_press = gate_step(g, true, pressed_at).0;
            let after_release = gate_step(after_press, false, released_at).0;
            gate_step(after_release, false, now_ms).1
        }),
{
}

/// Why the monitor pauses this tick, if it does: the control panel has focus, or automatic
/// explanation is off.
pub fn monitor_pause_status(main_window_focused: bool, translation_enabled: bool) -> (r: Option<&'static str>)
    ensures
        match r {
            Some(s) => (main_window_focused && s@ == "main-window-focused"@) || (!main_window_focused
                && !translation_enabled && s@ == "translation-disabled"@),
            None => !main_window_focused && translation_enabled,
        },
{
    if main_window_focused {
        Some("main-window-focused")
    } else if !translation_enabled {
        Some("translation-disabled")
    } else {
        None
    }
}

/// Whether a monitor tick pauses: the control panel has focus, or automatic explanation is off.
pub open spec fn tick_pauses(main_window_focused: bool, translation_enabled: bool) -> bool {
    main_window_focused || !translation_enabled
}

/// The pause step of a monitor tick. When the monitor pauses, the last selection and the
/// mouse tracker are forgotten and the status to report is returned; the caller then ends
/// the tick without probing. Otherwise nothing changes.
pub fn pause_tick(
    runtime: &mut RuntimeState,
    gate: &mut MouseReleaseGate,
    main_window_focused: bool,
    translation_enabled: bool,
) -> (r: Option<&'static str>)
    ensures
        r is Some <==> tick_pauses(main_window_focused, translation_enabled),
        r matches Some(st) ==> st@ == (if main_window_focused {
            "main-window-focused"@
        } else {
            "translation-disabled"@
        }),
        r is Some ==> final(runtime)@ == spec_reset_signature(old(runtime)@) && final(gate)@ == (
            false,
            None::<u64>,
        ),
        r is None ==> final(runtime)@ == old(runtime)@ && final(gate)@ == old(gate)@,
{
    let status = monitor_pause_status(main_window_focused, translation_enabled);
    if status.is_some() {
        runtime.reset_selection_signature();
        gate.reset_mouse_release_gate();
    }
    status
}

/// What a probe reported, as the monitor reads it: the selection's signature, and whether it
/// lies in one of this application's own windows.
pub open spec fn probe_seen(probe: &SelectionProbe) -> (Seq<char>, bool) {
    (probe.selection_signature@, is_own_window(probe.source_app@, probe.window_title@))
}

/// The state after a probe, and the request that it starts: no selection forgets the last
/// one; a selection in an own window changes nothing; any other goes to `spec_begin`.
pub open spec fn probe_step(s: RuntimeView, seen: Option<(Seq<char>, bool)>) -> (RuntimeView, Option<u64>) {
    match seen {
        None => (spec_reset_signature(s), None),
        Some(p) => if p.1 {
            (s, None)
        } else {
            spec_begin(s, p.0)
        },
    }
}

/// The probe step of a monitor tick: no selection forgets the last one, a selection is
/// handled by `accept_probe`. Returns the id of the request to start.
pub fn probe_tick(runtime: &mut RuntimeState, probe: Option<&SelectionProbe>) -> (r: Option<u64>)
    ensures
        (final(runtime)@, r) == probe_step(
            old(runtime)@,
            match probe {
                Some(p) => Some(probe_seen(p)),
                None => None,
            },
        ),
{
    match probe {
        Some(p) => accept_probe(runtime, p),
        None => {
            runtime.reset_selection_signature();
            None
        },
    }
}

/// One tick of the selection monitor on a platform that waits for the mouse release: the
/// runtime state, the tracker, and the request started. `seen` is what the probe reports if
/// the tick probes.
pub open spec fn monitor_tick(
    s: RuntimeView,
    g: GateView,
    main_window_focused: bool,
    translation_enabled: bool,
    primary_down: bool,
    now_ms: u64,
    seen: Option<(Seq<char>, bool)>,
) -> (RuntimeView, GateView, Option<u64>) {
    if tick_pauses(main_window_focused, translation_enabled) {
        (spec_reset_signature(s), (false, None), None)
    } else {
        let (g2, fire) = gate_step(g, primary_down, now_ms);
        if !fire {
            (s, g2, None)
        } else {
            let (s2, r) = probe_step(s, seen);
            (s2, g2, r)
        }
    }
}

/// A paused tick probes nothing and starts no request; it forgets the last selection and the
/// mouse tracker. A tick starts a request only when the monitor runs, the tracker fires, the
/// probe found a selection outside the own windows, no request runs, and the selection is
/// not the last one.
pub proof fn monitor_tick_law(
    s: RuntimeView,
    g: GateView,
    main_window_focused: bool,
    translation_enabled: bool,
    primary_down: bool,
    now_ms: u64,
    seen: Option<(Seq<char>, bool)>,
)
    ensures
        tick_pauses(main_window_focused, translation_enabled) ==> monitor_tick(
            s,
            g,
            main_window_focused,
            translation_enabled,
            primary_down,
            now_ms,
            seen,
        ) == (spec_reset_signature(s), (false, None::<u64>), None::<u64>),
        monitor_tick(s, g, main_window_focused, translation_enabled, primary_down, now_ms, seen).2
            is Some ==> {
            &&& !tick_pauses(main_window_focused, translation_enabled)
            &&& gate_step(g, primary_down, now_ms).1
            &&& seen matches Some(p) && !p.1 && !s.2 && s.1 != p.0
        },
        monitor_tick(s, g, main_window_focused, translation_enabled, primary_down, now_ms, None).1
            == (if tick_pauses(main_window_focused, translation_enabled) {
            (false, None::<u64>)
        } else {
            gate_step(g, primary_down, now_ms).0
        }),
{
}

/// Where the task that answers one selection stands.
#[derive(Clone, Copy, Debug, PartialEq, Eq, Structural)]
pub enum TaskStage {
    /// Reading the window's context.
    Capturing,
    /// Waiting for the AI answer, the loading popup shown.
    Explaining,
    /// Nothing more to show.
    Done,
}

/// What the task shows in the popup at a step.
#[derive(Clone, Copy, Debug, PartialEq, Eq, Structural)]
pub enum PopupEmit {
    /// Nothing: the request is no longer current, or there is nothing to show yet.
    Nothing,
    /// The loading popup.
    Loading,
    /// The final popup, with the answer or the error.
    Show,
}

/// The task that answers one selection: its request and its stage.
pub struct SelectionTask {
    pub request_id: u64,
    pub stage: TaskStage,
}

/// The step after the capture: a failed capture shows its error and ends; a capture goes on
/// to the AI request with the loading popup; a request that is no longer current shows
/// nothing and ends.
pub open spec fn capture_step(current: bool, captured: bool) -> (TaskStage, PopupEmit) {
    if !current {
        (TaskStage::Done, PopupEmit::Nothing)
    } else if !captured {
        (TaskStage::Done, PopupEmit::Show)
    } else {
        (TaskStage::Explaining, PopupEmit::Loading)
    }
}

/// The step after the AI answer: it is shown only while the request is current.
pub open spec fn answer_step(current: bool) -> (TaskStage, PopupEmit) {
    (TaskStage::Done, if current { PopupEmit::Show } else { PopupEmit::Nothing })
}

impl SelectionTask {
    /// The task for request `request_id`, about to capture.
    pub fn new(request_id: u64) -> (r: SelectionTask)
        ensures
            r.request_id == request_id,
            r.stage == TaskStage::Capturing,
    {
        SelectionTask { request_id, stage: TaskStage::Capturing }
    }

    /// After the capture, succeeded or not: what to show, judged against the runtime state.
    pub fn after_capture(&mut self, runtime: &RuntimeState, captured: bool) -> (r: PopupEmit)
        requires
            old(self).stage == TaskStage::Capturing,
        ensures
            final(self).request_id == old(self).request_id,
            (final(self).stage, r) == capture_step(runtime.active_request_id == old(self).request_id, captured),
    {
        let current = runtime.request_is_current(self.request_id);
        if !current {
            self.stage = TaskStage::Done;
            PopupEmit::Nothing
        } else if !captured {
            self.stage = TaskStage::Done;
            PopupEmit::Show
        } else {
            self.stage = TaskStage::Explaining;
            PopupEmit::Loading
        }
    }

    /// After the AI answer: what to show, judged against the runtime state.
    pub fn after_answer(&mut self, runtime: &RuntimeState) -> (r: PopupEmit)
        requires
            old(self).stage == TaskStage::Explaining,
        ensures
            final(self).request_id == old(self).request_id,
            (final(self).stage, r) == answer_step(runtime.active_request_id == old(self).request_id),
    {
        self.stage = TaskStage::Done;
        if runtime.request_is_current(self.request_id) {
            PopupEmit::Show
        } else {
            PopupEmit::Nothing
        }
    }

    /// Ends the task: marks its request done if it is still current; returns whether it was.
    pub fn finish(&self, runtime: &mut RuntimeState) -> (r: bool)
        requires
            self.stage == TaskStage::Done,
        ensures
            (final(runtime)@, r) == spec_finish(old(runtime)@, self.request_id),
    {
        runtime.finish_request(self.request_id)
    }
}

/// The task shows something only while its request is current; the final popup of an answer
/// comes only after the loading popup (the answer step is reached only from the capture step
/// that showed it); a task whose request is no longer current ends without changing the
/// runtime state; and one that ends while current leaves no request running.
pub proof fn selection_task_law(current: bool, captured: bool, s: RuntimeView, id: u64)
    ensures
        !current ==> capture_step(current, captured).1 == PopupEmit::Nothing && answer_step(current).1
            == PopupEmit::Nothing,
        capture_step(current, captured).0 == TaskStage::Explaining <==> current && captured,
        capture_step(current, captured).0 == TaskStage::Explaining ==> capture_step(current, captured).1
            == PopupEmit::Loading,
        capture_step(current, captured).0 != TaskStage::Explaining ==> capture_step(current, captured).0
            == TaskStage::Done,
        s.0 != id ==> spec_finish(s, id) == (s, false),
        s.0 == id ==> !spec_finish(s, id).0.2 && spec_finish(s, id).1,
{
}

/// What deleting the API key stores in the key store.
pub const DELETED_API_KEY: &'static str = "";

/// The key in use, given what the key store holds: none for a missing or blank key.
pub open spec fn configured_key(stored: Option<Seq<char>>) -> Option<Seq<char>> {
    match stored {
        Some(k) => if is_blank(k) {
            None
        } else {
            Some(k)
        },
        None => None,
    }
}

/// The API key read from the key store, when it is not blank.
pub fn usable_api_key(stored: Option<String>) -> (r: Option<String>)
    ensures
        match stored {
            Some(k) => if is_blank(k@) {
                r is None
            } else {
                r matches Some(v) && v@ == k@
            },
            None => r is None,
        },
{
    match stored {
        Some(k) => if str_is_blank(k.as_str()) {
            None
        } else {
            Some(k)
        },
        None => None,
    }
}

/// The answer of a command that needs the API key: the stored key when it is not blank,
/// otherwise the error `API key not configured`.
pub fn required_api_key(stored: Option<String>) -> (r: Result<String, String>)
    ensures
        match configured_key(match stored {
            Some(k) => Some(k@),
            None => None,
        }) {
            Some(k) => r matches Ok(v) && v@ == k,
            None => r matches Err(e) && e@ == "API key not configured"@,
        },
{
    match usable_api_key(stored) {
        Some(k) => Ok(k),
        None => Err(String::from_str("API key not configured")),
    }
}

/// A deleted key (the empty text that deleting stores), like any blank key, counts as no key.
pub proof fn deleted_key_counts_as_no_key(k: Seq<char>)
    requires
        is_blank(k),
    ensures
        configured_key(Some(k)) is None,
        configured_key(Some(DELETED_API_KEY@)) is None,
{
    reveal_strlit("");
    assert(DELETED_API_KEY@ =~= Seq::<char>::empty());
}

/// Where the popup is first put, next to the cursor: 18 pixels right and up, at least 8
/// pixels from the top (saturating at the coordinate range).
pub open spec fn fallback_position(cursor_x: i32, cursor_y: i32) -> (int, int) {
    let x = if cursor_x + 18 > i32::MAX {
        i32::MAX as int
    } else {
        cursor_x + 18
    };
    let y0 = if cursor_y - 18 < i32::MIN {
        i32::MIN as int
    } else {
        cursor_y - 18
    };
    (x, if y0 < 8 {
        8
    } else {
        y0
    })
}

/// The popup's first position for a cursor position.
pub fn popup_fallback_position(cursor_x: i32, cursor_y: i32) -> (r: (i32, i32))
    ensures
        (r.0 as int, r.1 as int) == fallback_position(cursor_x, cursor_y),
{
    let x = if cursor_x > i32::MAX - 18 {
        i32::MAX
    } else {
        cursor_x + 18
    };
    let y = if cursor_y < i32::MIN + 18 {
        i32::MIN
    } else {
        cursor_y - 18
    };
    (x, if y < 8 {
        8
    } else {
        y
    })
}

/// The popup appears right of the cursor and never above the screen's top margin, and, away
/// from the screen's top and the coordinate range's ends, right above it.
pub proof fn popup_appears_above_right(cursor_x: i32, cursor_y: i32)
    ensures
        fallback_position(cursor_x, cursor_y).0 >= cursor_x,
        fallback_position(cursor_x, cursor_y).1 >= 8,
        cursor_x <= i32::MAX - 18 ==> fallback_position(cursor_x, cursor_y).0 == cursor_x + 18,
        cursor_y >= 26 ==> fallback_position(cursor_x, cursor_y).1 == cursor_y - 18,
{
}

/// The popup's size as requested by its content, at least 320 by 168 pixels.
pub fn popup_target_size(width: u32, height: u32) -> (r: (u32, u32))
    ensures
        r.0 == if width >= 320 { width } else { 320 },
        r.1 == if height >= 168 { height } else { 168 },
{
    (if width >= 320 {
        width
    } else {
        320
    }, if height >= 168 {
        height
    } else {
        168
    })
}

/// The method of a snapshot whose selection came from the probe.
pub open spec fn fallback_method(method: Seq<char>) -> Seq<char> {
    if is_blank(method) {
        "probe-fallback"@
    } else {
        method + "/probe-fallback"@
    }
}

/// The context used for the AI request: the full capture, or the probe when the capture found
/// no window; the probe's selection stands in for a blank captured selection.
pub fn merge_probe_fallback(probe: &SelectionProbe, captured: Option<SelectionContext>) -> (r: SelectionContext)
    ensures
        ({
            let base_text = match captured {
                Some(c) => c.selected_text@,
                None => probe.selected_text@,
            };
            let base_method = match captured {
                Some(c) => c.selection_method@,
                None => probe.selection_method@,
            };
            let base_sig = match captured {
                Some(c) => c.selection_signature@,
                None => probe.selection_signature@,
            };
            &&& if is_blank(base_text) {
                &&& r.selected_text@ == probe.selected_text@
                &&& r.selection_signature@ == probe.selection_signature@
                &&& r.selection_method@ == fallback_method(base_method)
            } else {
                &&& r.selected_text@ == base_text
                &&& r.selection_signature@ == base_sig
                &&& r.selection_method@ == base_method
            }
            &&& match captured {
                Some(c) => {
                    &&& r.source_app@ == c.source_app@
                    &&& r.window_title@ == c.window_title@
                    &&& r.cursor == c.cursor
                    &&& r.window_rect == c.window_rect
                    &&& r.window_text@ == c.window_text@
                    &&& r.screenshot_base64@ == c.screenshot_base64@
                    &&& r.screenshot_mime@ == c.screenshot_mime@
                },
                None => {
                    &&& r.source_app@ == probe.source_app@
                    &&& r.window_title@ == probe.window_title@
                    &&& r.cursor == probe.cursor
                    &&& r.window_rect == WindowRect { x: 0, y: 0, width: 0, height: 0 }
                    &&& r.window_text@ == Seq::<char>::empty()
                    &&& r.screenshot_base64@ == Seq::<char>::empty()
                    &&& r.screenshot_mime@ == Seq::<char>::empty()
                },
            }
        }),
{
    let mut snapshot = match captured {
        Some(c) => c,
        None => SelectionContext {
            selected_text: probe.selected_text.clone(),
            selection_signature: probe.selection_signature.clone(),
            source_app: probe.source_app.clone(),
            window_title: probe.window_title.clone(),
            cursor: probe.cursor.copy(),
            window_rect: WindowRect { x: 0, y: 0, width: 0, height: 0 },
            selection_method: probe.selection_method.clone(),
            window_text: String::new(),
            screenshot_base64: String::new(),
            screenshot_mime: String::new(),
        },
    };
    if str_is_blank(snapshot.selected_text.as_str()) {
        snapshot.selected_text = probe.selected_text.clone();
        snapshot.selection_signature = probe.selection_signature.clone();
        if str_is_blank(snapshot.selection_method.as_str()) {
            snapshot.selection_method = String::from_str("probe-fallback");
        } else {
            let mut v = chars_of(snapshot.selection_method.as_str());
            push_str(&mut v, "/probe-fallback");
            snapshot.selection_method = string_of(&v);
        }
    }
    snapshot
}

/// What the popup shows while the request runs.
pub fn loading_payload(snapshot: &SelectionContext, max_wait_ms: u64) -> (r: PopupLoadingPayload)
    ensures
        r.selected_text@ == snapshot.selected_text@,
        r.source_app@ == snapshot.source_app@,
        r.window_title@ == snapshot.window_title@,
        r.cursor_x == snapshot.cursor.x,
        r.cursor_y == snapshot.cursor.y,
        r.max_wait_ms == max_wait_ms,
{
    PopupLoadingPayload {
        selected_text: snapshot.selected_text.clone(),
        source_app: snapshot.source_app.clone(),
        window_title: snapshot.window_title.clone(),
        cursor_x: snapshot.cursor.x,
        cursor_y: snapshot.cursor.y,
        max_wait_ms,
    }
}

/// What the popup shows once the request ended: the explanation, or else the error.
pub fn popup_payload(snapshot: &SelectionContext, outcome: Result<(String, u64), String>) -> (r: PopupPayload)
    ensures
        r.selected_text@ == snapshot.selected_text@,
        r.source_app@ == snapshot.source_app@,
        r.window_title@ == snapshot.window_title@,
        r.cursor_x == snapshot.cursor.x,
        r.cursor_y == snapshot.cursor.y,
        match outcome {
            Ok((explanation, latency_ms)) => {
                &&& r.explanation@ == explanation@
                &&& r.latency_ms == latency_ms
                &&& r.error@ == Seq::<char>::empty()
            },
            Err(e) => {
                &&& r.explanation@ == Seq::<char>::empty()
                &&& r.latency_ms == 0
                &&& r.error@ == e@
            },
        },
{
    let (explanation, latency_ms, error) = match outcome {
        Ok((explanation, latency_ms)) => (explanation, latency_ms, String::new()),
        Err(e) => (String::new(), 0, e),
    };
    PopupPayload {
        selected_text: snapshot.selected_text.clone(),
        explanation,
        source_app: snapshot.source_app.clone(),
        window_title: snapshot.window_title.clone(),
        latency_ms,
        error,
        cursor_x: snapshot.cursor.x,
        cursor_y: snapshot.cursor.y,
    }
}

/// What the popup shows when the context could not be captured: the probe and the error.
pub fn capture_error_payload(probe: &SelectionProbe, error: String) -> (r: PopupPayload)
    ensures
        r.selected_text@ == probe.selected_text@,
        r.explanation@ == Seq::<char>::empty(),
        r.source_app@ == probe.source_app@,
        r.window_title@ == probe.window_title@,
        r.latency_ms == 0,
        r.error@ == error@,
        r.cursor_x == probe.cursor.x,
        r.cursor_y == probe.cursor.y,
{
    PopupPayload {
        selected_text: probe.selected_text.clone(),
        explanation: String::new(),
        source_app: probe.source_app.clone(),
        window_title: probe.window_title.clone(),
        latency_ms: 0,
        error,
        cursor_x: probe.cursor.x,
        cursor_y: probe.cursor.y,
    }
}

/// The error shown when the AI request ran out of time, in whole seconds.
pub open spec fn timeout_message(max_wait_ms: u64) -> Seq<char> {
    "AI 请求超时（"@ + decimal((max_wait_ms / 1000) as nat) + " 秒），已自动取消。"@
}

/// Builds the error shown when the AI request ran out of time.
pub fn timeout_error_message(max_wait_ms: u64) -> (r: String)
    ensures
        r@ == timeout_message(max_wait_ms),
{
    let mut v: Vec<char> = Vec::new();
    push_str(&mut v, "AI 请求超时（");
    push_decimal(&mut v, max_wait_ms / 1000);
    push_str(&mut v, " 秒），已自动取消。");
    string_of(&v)
}

/// The error shown when the AI pipeline failed.
pub fn pipeline_error_message(detail: &str) -> (r: String)
    ensures
        r@ == "AI pipeline error: "@ + detail@,
{
    let mut v = chars_of("AI pipeline error: ");
    push_str(&mut v, detail);
    string_of(&v)
}

/// What a manual explanation works on: the captured application (none without a capture, the
/// caller then asks for the front application), and the captured selection, unless it is
/// blank, with the captured window text.
pub fn explain_selection_input(snapshot: Option<SelectionContext>, selected_text: String) -> (r: (
    Option<String>,
    PipelineInput,
))
    ensures
        match snapshot {
            Some(c) => {
                &&& r.0 matches Some(a) && a@ == c.source_app@
                &&& r.1.selected_text@ == if is_blank(c.selected_text@) {
                    selected_text@
                } else {
                    c.selected_text@
                }
                &&& r.1.window_text@ == c.window_text@
            },
            None => {
                &&& r.0 is None
                &&& r.1.selected_text@ == selected_text@
                &&& r.1.window_text@ == Seq::<char>::empty()
            },
        },
{
    match snapshot {
        Some(c) => {
            let text = if str_is_blank(c.selected_text.as_str()) {
                selected_text
            } else {
                c.selected_text
            };
            (Some(c.source_app), PipelineInput { selected_text: text, window_text: c.window_text })
        },
        None => (None, PipelineInput { selected_text, window_text: String::new() }),
    }
}

/// Handles a probe that found a selection: a selection in this application's own windows is
/// ignored; any other starts a request unless one runs or it was already handled. Returns the
/// id of the started request.
pub fn accept_probe(runtime: &mut RuntimeState, probe: &SelectionProbe) -> (r: Option<u64>)
    ensures
        is_own_window(probe.source_app@, probe.window_title@) ==> r is None && final(runtime)@
            == old(runtime)@,
        !is_own_window(probe.source_app@, probe.window_title@) ==> (final(runtime)@, r)
            == spec_begin(old(runtime)@, probe.selection_signature@),
{
    if is_our_window(probe.source_app.as_str(), probe.window_title.as_str()) {
        return None;
    }
    runtime.begin_request(&probe.selection_signature)
}

/// Whether a mouse release outside the popup dismisses it while the AI request is loading.
pub fn should_cancel_loading_popup(runtime: &RuntimeState, popup_visible: bool) -> (r: bool)
    ensures
        r == (runtime.in_flight && popup_visible),
{
    runtime.in_flight && popup_visible
}

} // verus!
