//! Settings, runtime bookkeeping of the selection monitor, and the payloads sent to the popup.
use vstd::prelude::*;

verus! {

/// Service name under which the API key is kept in the system key store.
pub const KEYRING_SERVICE: &'static str = "com.tuntun.select2explain";

/// User name under which the API key is kept in the system key store.
pub const KEYRING_USER: &'static str = "api_key";

/// Wait for an AI answer when the settings say nothing else, in milliseconds.
pub const DEFAULT_MAX_AI_WAIT_MS: u64 = 15_000;

/// Shortest wait for an AI answer that the settings accept, in milliseconds.
pub const MIN_AI_WAIT_MS: u64 = 5_000;

/// Longest wait for an AI answer that the settings accept, in milliseconds.
pub const MAX_AI_WAIT_MS: u64 = 120_000;

/// The provider and monitor settings that the control panel edits.
pub struct ProviderSettings {
    pub base_url: String,
    pub model: String,
    pub translation_enabled: bool,
    pub debug_logging_enabled: bool,
    pub max_ai_wait_ms: u64,
}

/// The default provider endpoint.
pub open spec fn default_base_url() -> Seq<char> {
    "https://openrouter.ai/api/v1"@
}

/// The default text model.
pub open spec fn default_model() -> Seq<char> {
    "x-ai/grok-4.1-fast"@
}

impl ProviderSettings {
    /// The settings of a fresh installation.
    pub open spec fn is_default(&self) -> bool {
        &&& self.base_url@ == default_base_url()
        &&& self.model@ == default_model()
        &&& !self.translation_enabled
        &&& !self.debug_logging_enabled
        &&& self.max_ai_wait_ms == DEFAULT_MAX_AI_WAIT_MS
    }

    /// A copy of these settings.
    pub fn copy(&self) -> (r: ProviderSettings)
        ensures
            r@ == self@,
    {
        ProviderSettings {
            base_url: self.base_url.clone(),
            model: self.model.clone(),
            translation_enabled: self.translation_enabled,
            debug_logging_enabled: self.debug_logging_enabled,
            max_ai_wait_ms: self.max_ai_wait_ms,
        }
    }
}

/// The settings as plain values: base URL, model, the two switches and the wait.
pub type SettingsView = (Seq<char>, Seq<char>, bool, bool, u64);

impl View for ProviderSettings {
    type V = SettingsView;

    open spec fn view(&self) -> SettingsView {
        (
            self.base_url@,
            self.model@,
            self.translation_enabled,
            self.debug_logging_enabled,
            self.max_ai_wait_ms,
        )
    }
}

impl Default for ProviderSettings {
    fn default() -> (r: Self)
        ensures
            r.is_default(),
    {
        ProviderSettings {
            base_url: String::from_str("https://openrouter.ai/api/v1"),
            model: String::from_str("x-ai/grok-4.1-fast"),
            translation_enabled: false,
            debug_logging_enabled: false,
            max_ai_wait_ms: DEFAULT_MAX_AI_WAIT_MS,
        }
    }
}

/// `value` brought into `[MIN_AI_WAIT_MS, MAX_AI_WAIT_MS]`.
pub open spec fn clamp_wait(value: u64) -> u64 {
    if value < MIN_AI_WAIT_MS {
        MIN_AI_WAIT_MS
    } else if value > MAX_AI_WAIT_MS {
        MAX_AI_WAIT_MS
    } else {
        value
    }
}

/// Brings a requested AI wait into the accepted range.
pub fn normalize_ai_wait_ms(value: u64) -> (r: u64)
    ensures
        r == clamp_wait(value),
        MIN_AI_WAIT_MS <= r <= MAX_AI_WAIT_MS,
        MIN_AI_WAIT_MS <= value <= MAX_AI_WAIT_MS ==> r == value,
{
    if value < MIN_AI_WAIT_MS {
        MIN_AI_WAIT_MS
    } else if value > MAX_AI_WAIT_MS {
        MAX_AI_WAIT_MS
    } else {
        value
    }
}

/// Normalizing a wait twice gives what normalizing it once gives.
pub proof fn normalize_ai_wait_ms_idempotent(value: u64)
    ensures
        clamp_wait(clamp_wait(value)) == clamp_wait(value),
{
}

/// The settings with their wait brought into range, as the control panel saves them.
pub fn normalized_settings(settings: ProviderSettings) -> (r: ProviderSettings)
    ensures
        r.base_url@ == settings.base_url@,
        r.model@ == settings.model@,
        r.translation_enabled == settings.translation_enabled,
        r.debug_logging_enabled == settings.debug_logging_enabled,
        r.max_ai_wait_ms == clamp_wait(settings.max_ai_wait_ms),
{
    let wait = normalize_ai_wait_ms(settings.max_ai_wait_ms);
    ProviderSettings { max_ai_wait_ms: wait, ..settings }
}

/// The settings after the global hotkey flips the automatic monitor.
pub fn toggle_translation_enabled(settings: &mut ProviderSettings)
    ensures
        final(settings).translation_enabled == !old(settings).translation_enabled,
        final(settings).base_url@ == old(settings).base_url@,
        final(settings).model@ == old(settings).model@,
        final(settings).debug_logging_enabled == old(settings).debug_logging_enabled,
        final(settings).max_ai_wait_ms == old(settings).max_ai_wait_ms,
{
    settings.translation_enabled = !settings.translation_enabled;
}

/// Flipping the automatic monitor twice restores the settings.
pub proof fn toggle_translation_twice(before: SettingsView, middle: SettingsView, after: SettingsView)
    requires
        middle == (before.0, before.1, !before.2, before.3, before.4),
        after == (middle.0, middle.1, !middle.2, middle.3, middle.4),
    ensures
        after == before,
{
}

/// The answer of a manual explanation request.
pub struct ExplainResponse {
    pub explanation: String,
    pub source_app: String,
    pub latency_ms: u64,
}

/// What the popup shows while the AI request runs.
pub struct PopupLoadingPayload {
    pub selected_text: String,
    pub source_app: String,
    pub window_title: String,
    pub cursor_x: i32,
    pub cursor_y: i32,
    pub max_wait_ms: u64,
}

/// What the popup shows once the AI request has ended, with an explanation or an error.
pub struct PopupPayload {
    pub selected_text: String,
    pub explanation: String,
    pub source_app: String,
    pub window_title: String,
    pub latency_ms: u64,
    pub error: String,
    pub cursor_x: i32,
    pub cursor_y: i32,
}

/// How long the popup must have been shown before losing focus hides it, in milliseconds.
pub const POPUP_BLUR_GRACE_MS: u64 = 220;

/// The bookkeeping that the selection monitor shares with the popup and the commands.
///
/// Time stamps are milliseconds on a monotonic clock that the caller reads.
pub struct RuntimeState {
    pub active_request_id: u64,
    pub last_selection_signature: String,
    pub in_flight: bool,
    pub monitor_status: String,
    pub popup_interactive: bool,
    pub popup_last_revealed_at_ms: Option<u64>,
}

/// The next request id (`u64::wrapping_add(1)`).
pub open spec fn next_id(id: u64) -> u64 {
    if id == u64::MAX {
        0
    } else {
        (id + 1) as u64
    }
}

/// The state after a selection with `signature` is seen, and the id of the request that it
/// starts, if any: none while a request runs or when the selection is the last one handled.
pub open spec fn spec_begin(s: RuntimeView, signature: Seq<char>) -> (RuntimeView, Option<u64>) {
    if s.2 || s.1 == signature {
        (s, None)
    } else {
        let id = next_id(s.0);
        ((id, signature, true, s.3, s.4, s.5), Some(id))
    }
}

/// The state after request `id` ends, and whether it was the current one.
pub open spec fn spec_finish(s: RuntimeView, id: u64) -> (RuntimeView, bool) {
    if s.0 == id {
        ((s.0, s.1, false, s.3, s.4, s.5), true)
    } else {
        (s, false)
    }
}

/// The state after the running request is dropped.
pub open spec fn spec_cancel(s: RuntimeView) -> RuntimeView {
    (next_id(s.0), Seq::<char>::empty(), false, s.3, false, None)
}

/// The state after the last selection is forgotten.
pub open spec fn spec_reset_signature(s: RuntimeView) -> RuntimeView {
    (s.0, Seq::<char>::empty(), s.2, s.3, s.4, s.5)
}

impl RuntimeState {
    /// The state at start-up.
    pub fn new() -> (r: RuntimeState)
        ensures
            r@ == (0u64, Seq::<char>::empty(), false, Seq::<char>::empty(), false, None::<u64>),
    {
        RuntimeState {
            active_request_id: 0,
            last_selection_signature: String::new(),
            in_flight: false,
            monitor_status: String::new(),
            popup_interactive: false,
            popup_last_revealed_at_ms: None,
        }
    }

    /// Starts a request for a selection unless one is running or the same selection was
    /// already handled; returns the new request's id.
    pub fn begin_request(&mut self, signature: &String) -> (r: Option<u64>)
        ensures
            (final(self)@, r) == spec_begin(old(self)@, signature@),
    {
        if self.in_flight || self.last_selection_signature == *signature {
            None
        } else {
            self.in_flight = true;
            self.active_request_id = self.active_request_id.wrapping_add(1);
            self.last_selection_signature = signature.clone();
            Some(self.active_request_id)
        }
    }

    /// Whether `request_id` is the request whose answer may still be shown.
    pub fn request_is_current(&self, request_id: u64) -> (r: bool)
        ensures
            r == (self.active_request_id == request_id),
    {
        self.active_request_id == request_id
    }

    /// Marks the request done if it is still the current one; returns whether it was.
    pub fn finish_request(&mut self, request_id: u64) -> (r: bool)
        ensures
            (final(self)@, r) == spec_finish(old(self)@, request_id),
    {
        if self.active_request_id == request_id {
            self.in_flight = false;
            true
        } else {
            false
        }
    }

    /// Drops the running request: its answer will not be shown, the popup is no longer
    /// interactive, and the last selection is forgotten.
    pub fn cancel_request(&mut self)
        ensures
            final(self)@ == spec_cancel(old(self)@),
    {
        self.active_request_id = self.active_request_id.wrapping_add(1);
        self.in_flight = false;
        self.popup_interactive = false;
        self.popup_last_revealed_at_ms = None;
        self.reset_selection_signature();
    }

    /// Forgets the last selection, so that selecting the same text again starts a request.
    pub fn reset_selection_signature(&mut self)
        ensures
            final(self)@ == spec_reset_signature(old(self)@),
    {
        self.last_selection_signature = String::new();
    }

    /// Records the monitor's status; returns whether it changed (and so should be logged).
    pub fn update_monitor_status(&mut self, status: &str) -> (changed: bool)
        ensures
            changed == (old(self).monitor_status@ != status@),
            final(self)@ == (
                old(self)@.0,
                old(self)@.1,
                old(self)@.2,
                status@,
                old(self)@.4,
                old(self)@.5,
            ),
    {
        let status = String::from_str(status);
        if self.monitor_status == status {
            false
        } else {
            self.monitor_status = status;
            true
        }
    }

    /// Records that the popup was shown at `now_ms`; only the final answer makes it interactive.
    pub fn mark_popup_revealed(&mut self, interactive: bool, now_ms: u64)
        ensures
            final(self)@ == (
                old(self)@.0,
                old(self)@.1,
                old(self)@.2,
                old(self)@.3,
                interactive,
                Some(now_ms),
            ),
    {
        self.popup_interactive = interactive;
        self.popup_last_revealed_at_ms = Some(now_ms);
    }

    /// Records that the popup is hidden.
    pub fn mark_popup_hidden(&mut self)
        ensures
            final(self)@ == (
                old(self)@.0,
                old(self)@.1,
                old(self)@.2,
                old(self)@.3,
                false,
                None::<u64>,
            ),
    {
        self.popup_interactive = false;
        self.popup_last_revealed_at_ms = None;
    }

    /// Whether a visible popup that has lost focus should be hidden: it shows a final answer
    /// and was revealed more than `POPUP_BLUR_GRACE_MS` before `now_ms`.
    pub fn should_hide_unfocused_popup(&self, focused: bool, now_ms: u64) -> (r: bool)
        ensures
            r == (self.popup_interactive && !focused && match self.popup_last_revealed_at_ms {
                Some(t) => now_ms >= t && now_ms - t > POPUP_BLUR_GRACE_MS,
                None => false,
            }),
    {
        if !self.popup_interactive || focused {
            return false;
        }
        match self.popup_last_revealed_at_ms {
            Some(t) => now_ms.saturating_sub(t) > POPUP_BLUR_GRACE_MS,
            None => false,
        }
    }
}

/// A selection that started a request is not requested again when it is seen again, after
/// that request has ended, as long as the signature was not forgotten.
pub proof fn same_selection_is_not_requested_twice(s: RuntimeView, signature: Seq<char>, id: u64)
    requires
        spec_begin(s, signature).1 == Some(id),
    ensures
        spec_begin(spec_finish(spec_begin(s, signature).0, id).0, signature).1 is None,
        spec_begin(spec_begin(s, signature).0, signature).1 is None,
{
}

/// While no request runs, the only selection that starts no request is the last handled one:
/// any other signature starts a request whose id follows the current one (wrapping at the
/// end of the range), which is then running with that signature recorded; while a request
/// runs, nothing starts and nothing changes.
pub proof fn idle_monitor_refuses_only_the_last_selection(s: RuntimeView, signature: Seq<char>)
    ensures
        !s.2 ==> (spec_begin(s, signature).1 is None <==> signature == s.1),
        !s.2 && signature != s.1 ==> {
            &&& spec_begin(s, signature).1 == Some(if s.0 == u64::MAX { 0u64 } else { (s.0 + 1) as u64 })
            &&& spec_begin(s, signature).0.0 == spec_begin(s, signature).1->0
            &&& spec_begin(s, signature).0.1 == signature
            &&& spec_begin(s, signature).0.2
            &&& spec_begin(s, signature).0.3 == s.3
            &&& spec_begin(s, signature).0.4 == s.4
            &&& spec_begin(s, signature).0.5 == s.5
        },
        s.2 ==> spec_begin(s, signature) == (s, None::<u64>),
        signature == s.1 ==> spec_begin(s, signature) == (s, None::<u64>),
{
}

/// Once the last selection is forgotten and no request runs, selecting the same text again
/// starts a new request.
pub proof fn forgotten_selection_is_requested_again(s: RuntimeView, signature: Seq<char>)
    requires
        !s.2,
        signature.len() > 0,
    ensures
        spec_begin(spec_reset_signature(s), signature).1 == Some(next_id(s.0)),
{
}

/// While a request runs, no other selection starts a request.
pub proof fn no_request_while_one_runs(s: RuntimeView, signature: Seq<char>)
    requires
        s.2,
    ensures
        spec_begin(s, signature) == (s, None::<u64>),
{
}

/// After a cancel, the request that was current is stale: its answer is not current and its
/// end changes nothing.
pub proof fn cancel_makes_request_stale(s: RuntimeView)
    ensures
        spec_cancel(s).0 != s.0,
        spec_finish(spec_cancel(s), s.0) == (spec_cancel(s), false),
{
}

/// A request that ends while current leaves nothing running.
pub proof fn finished_request_frees_monitor(s: RuntimeView, signature: Seq<char>, id: u64)
    requires
        spec_begin(s, signature).1 == Some(id),
    ensures
        !spec_finish(spec_begin(s, signature).0, id).0.2,
        spec_finish(spec_begin(s, signature).0, id).1,
{
}

/// The runtime state as plain values, field by field.
pub type RuntimeView = (u64, Seq<char>, bool, Seq<char>, bool, Option<u64>);

impl View for RuntimeState {
    type V = RuntimeView;

    open spec fn view(&self) -> RuntimeView {
        (
            self.active_request_id,
            self.last_selection_signature@,
            self.in_flight,
            self.monitor_status@,
            self.popup_interactive,
            self.popup_last_revealed_at_ms,
        )
    }
}

} // verus!
