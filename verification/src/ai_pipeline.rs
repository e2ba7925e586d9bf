//! Single-stage AI pipeline: the selected text plus the window's text go to a fast text model.
//! This module decides what context the model sees and what it is asked.
use vstd::prelude::*;
use crate::providers::TextRequest;
use crate::state::ProviderSettings;
use crate::text::{
    chars_of, find, find_chars, is_blank, matches_at, push_range, push_str, string_of, trim,
    trim_bounds, trim_chars,
};

verus! {

/// At most this many characters of window text go into a prompt.
pub const MAX_PROMPT_CONTEXT_CHARS: usize = 3600;

/// The instructions that the explanation model gets.
pub const EXPLAIN_SYSTEM_PROMPT: &'static str = "You are a context-aware reading assistant. When given a selected text and its surrounding context, explain what the selected text means IN THIS SPECIFIC CONTEXT. Prefer the surrounding window text over generic knowledge. Be concise (2-4 sentences). Always reply in the same language as the selected text. Do NOT give a dictionary definition — explain the contextual meaning.";

/// What the pipeline explains.
pub struct PipelineInput {
    pub selected_text: String,
    /// Full text from the active window (may be empty if unavailable)
    pub window_text: String,
}

/// The explanation and how long the pipeline took.
pub struct PipelineResult {
    pub explanation: String,
    pub latency_ms: u64,
}

/// The marker put before an excerpt that does not start at the window text's start.
pub open spec fn omitted_before() -> Seq<char> {
    "...[context omitted]\n"@
}

/// The marker put after context that stops before the window text's end.
pub open spec fn omitted_after() -> Seq<char> {
    "\n...[context omitted]"@
}

/// The window positions `[start, end)` kept around a selection of `sel_len` characters that
/// starts at `at` in a window text of `total` characters: the selection, and the rest of the
/// budget split evenly before and after it, cut at the text's ends.
pub open spec fn excerpt_bounds(sel_len: int, at: int, total: int) -> (int, int) {
    let budget = if MAX_PROMPT_CONTEXT_CHARS >= sel_len {
        MAX_PROMPT_CONTEXT_CHARS - sel_len
    } else {
        0
    };
    let before = budget / 2;
    let after = budget - before;
    let start = if at >= before {
        at - before
    } else {
        0
    };
    let end = if at + sel_len + after <= total {
        at + sel_len + after
    } else {
        total
    };
    (start, end)
}

/// The context that the prompt quotes from the window text.
pub open spec fn prompt_context(selected: Seq<char>, window: Seq<char>) -> Seq<char> {
    let sel = trim(selected);
    if is_blank(window) {
        Seq::empty()
    } else if window.len() <= MAX_PROMPT_CONTEXT_CHARS {
        window
    } else if sel.len() > 0 && find(window, sel) is Some {
        let (start, end) = excerpt_bounds(sel.len() as int, find(window, sel)->0, window.len() as int);
        (if start > 0 {
            omitted_before()
        } else {
            Seq::empty()
        }) + window.subrange(start, end) + (if end < window.len() {
            omitted_after()
        } else {
            Seq::empty()
        })
    } else {
        window.take(MAX_PROMPT_CONTEXT_CHARS as int) + omitted_after()
    }
}

/// The name of the way the context was chosen, as the pipeline logs it.
pub open spec fn prompt_strategy(selected: Seq<char>, window: Seq<char>) -> Seq<char> {
    let sel = trim(selected);
    if is_blank(window) {
        "empty"@
    } else if window.len() <= MAX_PROMPT_CONTEXT_CHARS {
        "full-window"@
    } else if sel.len() > 0 && find(window, sel) is Some {
        "selected-window"@
    } else {
        "leading-window"@
    }
}

/// Chooses the window text that goes into the prompt: nothing for a blank window, the whole
/// text when it is short, otherwise an excerpt around the first occurrence of the selection,
/// or else the text's start.
pub fn build_prompt_context(selected_text: &str, window_text: &str) -> (r: (String, &'static str))
    ensures
        r.0@ == prompt_context(selected_text@, window_text@),
        r.1@ == prompt_strategy(selected_text@, window_text@),
{
    let w = chars_of(window_text);
    let (a, b) = trim_bounds(&w);
    if a == b {
        return (String::new(), "empty");
    }
    if w.len() <= MAX_PROMPT_CONTEXT_CHARS {
        return (String::from_str(window_text), "full-window");
    }
    let sel_all = chars_of(selected_text);
    let sel = trim_chars(&sel_all);
    if sel.len() > 0 {
        if let Some(at) = find_chars(&w, &sel) {
            proof {
                crate::text::lemma_find_matches(w@, sel@);
            }
            let sel_len = sel.len();
            let budget = MAX_PROMPT_CONTEXT_CHARS.saturating_sub(sel_len);
            let before = budget / 2;
            let after = budget - before;
            let start = at.saturating_sub(before);
            let rest = w.len() - (at + sel_len);
            let end = if after <= rest {
                at + sel_len + after
            } else {
                w.len()
            };
            let mut out: Vec<char> = Vec::new();
            if start > 0 {
                push_str(&mut out, "...[context omitted]\n");
            }
            push_range(&mut out, &w, start, end);
            if end < w.len() {
                push_str(&mut out, "\n...[context omitted]");
            }
            return (string_of(&out), "selected-window");
        }
    }
    let mut out: Vec<char> = Vec::new();
    push_range(&mut out, &w, 0, MAX_PROMPT_CONTEXT_CHARS);
    push_str(&mut out, "\n...[context omitted]");
    assert(w@.subrange(0, MAX_PROMPT_CONTEXT_CHARS as int) == w@.take(
        MAX_PROMPT_CONTEXT_CHARS as int,
    ));
    (string_of(&out), "leading-window")
}

/// When the selection (trimmed) occurs in the window text, the prompt context holds it.
pub proof fn prompt_context_keeps_selection(selected: Seq<char>, window: Seq<char>)
    requires
        !is_blank(window),
        trim(selected).len() > 0,
        find(window, trim(selected)) is Some,
    ensures
        exists|k: int| matches_at(prompt_context(selected, window), trim(selected), k),
{
    let sel = trim(selected);
    let at = find(window, sel)->0;
    crate::text::lemma_find_matches(window, sel);
    if window.len() <= MAX_PROMPT_CONTEXT_CHARS {
        assert(matches_at(prompt_context(selected, window), sel, at));
    } else {
        let (start, end) = excerpt_bounds(sel.len() as int, at, window.len() as int);
        let head: Seq<char> = if start > 0 {
            omitted_before()
        } else {
            Seq::empty()
        };
        let tail: Seq<char> = if end < window.len() {
            omitted_after()
        } else {
            Seq::empty()
        };
        let mid = window.subrange(start, end);
        let r = head + mid + tail;
        assert(r == prompt_context(selected, window));
        let k = head.len() + (at - start);
        assert(r.subrange(k, k + sel.len()) =~= window.subrange(at, at + sel.len()));
        assert(matches_at(r, sel, k));
    }
}

/// When a window text longer than the budget does not hold the trimmed selection anywhere
/// (or the selection is blank), the prompt quotes the window from its very first character:
/// exactly its first `MAX_PROMPT_CONTEXT_CHARS` characters, then the omission marker.
pub proof fn unmatched_selection_quotes_window_start(selected: Seq<char>, window: Seq<char>)
    requires
        !is_blank(window),
        window.len() > MAX_PROMPT_CONTEXT_CHARS,
        trim(selected).len() == 0 || forall|k: int| !#[trigger] matches_at(window, trim(selected), k),
    ensures
        prompt_context(selected, window).len() == MAX_PROMPT_CONTEXT_CHARS + 21,
        forall|k: int|
            0 <= k < MAX_PROMPT_CONTEXT_CHARS ==> #[trigger] prompt_context(selected, window)[k] == window[k],
        prompt_context(selected, window).skip(MAX_PROMPT_CONTEXT_CHARS as int) =~= seq![
            '\n', '.', '.', '.', '[', 'c', 'o', 'n', 't', 'e', 'x', 't', ' ', 'o', 'm', 'i', 't', 't', 'e', 'd', ']',
        ],
        prompt_strategy(selected, window) == "leading-window"@,
{
    reveal_strlit("\n...[context omitted]");
    let sel = trim(selected);
    if sel.len() > 0 && find(window, sel) is Some {
        crate::text::lemma_find_matches(window, sel);
        assert(matches_at(window, sel, find(window, sel)->0));
    }
    let r = prompt_context(selected, window);
    assert(r == window.take(MAX_PROMPT_CONTEXT_CHARS as int) + omitted_after());
}

/// The excerpt around a selection no longer than the budget spans at most the budget.
pub proof fn excerpt_within_budget(sel_len: int, at: int, total: int)
    requires
        0 < sel_len <= MAX_PROMPT_CONTEXT_CHARS,
        0 <= at,
        at + sel_len <= total,
    ensures
        ({
            let (start, end) = excerpt_bounds(sel_len, at, total);
            &&& 0 <= start <= at
            &&& at + sel_len <= end <= total
            &&& end - start <= MAX_PROMPT_CONTEXT_CHARS
        }),
{
}

/// The question sent with the selection and its context.
pub open spec fn user_message(selected: Seq<char>, context: Seq<char>) -> Seq<char> {
    if context.len() == 0 {
        "Selected text: \""@ + selected + "\"\n\nNo additional context is available."@
    } else {
        "Selected text: \""@ + selected + "\"\n\nFull context from the window:\n"@ + context
    }
}

/// Builds the question for the selection and the chosen context.
pub fn build_user_message(selected_text: &str, prompt_context: &str) -> (r: String)
    ensures
        r@ == user_message(selected_text@, prompt_context@),
{
    let mut v: Vec<char> = Vec::new();
    push_str(&mut v, "Selected text: \"");
    push_str(&mut v, selected_text);
    if prompt_context.is_empty() {
        push_str(&mut v, "\"\n\nNo additional context is available.");
    } else {
        push_str(&mut v, "\"\n\nFull context from the window:\n");
        push_str(&mut v, prompt_context);
    }
    string_of(&v)
}

/// The request that explains `input` with the configured model.
pub fn explain_request(input: &PipelineInput, settings: &ProviderSettings) -> (r: TextRequest)
    ensures
        r.model@ == settings.model@,
        r.system@ == EXPLAIN_SYSTEM_PROMPT@,
        r.user@ == user_message(
            input.selected_text@,
            prompt_context(input.selected_text@, input.window_text@),
        ),
{
    let (context, _strategy) = build_prompt_context(
        input.selected_text.as_str(),
        input.window_text.as_str(),
    );
    TextRequest {
        model: settings.model.clone(),
        system: String::from_str(EXPLAIN_SYSTEM_PROMPT),
        user: build_user_message(input.selected_text.as_str(), context.as_str()),
    }
}

/// The request that checks that the provider answers.
pub fn connection_test_request(settings: &ProviderSettings) -> (r: TextRequest)
    ensures
        r.model@ == settings.model@,
        r.system@ == "You are a test assistant."@,
        r.user@ == "Reply with just: ok"@,
{
    TextRequest {
        model: settings.model.clone(),
        system: String::from_str("You are a test assistant."),
        user: String::from_str("Reply with just: ok"),
    }
}

} // verus!
