//! The decisions of the macOS capture: what the AppleScript and JXA answers mean, and what a
//! probe or a capture reports. Running the scripts stays with the caller.
use vstd::prelude::*;
use crate::platform::{
    signature_of, selection_signature, CursorPoint, SelectionContext, SelectionProbe, WindowRect,
};
use crate::text::{is_blank, str_is_blank, trim, trim_str};

verus! {

/// The answer of a script as `osascript` prints it: trimmed, none when empty.
pub open spec fn script_answer(stdout_text: Seq<char>) -> Option<Seq<char>> {
    if trim(stdout_text).len() == 0 {
        None
    } else {
        Some(trim(stdout_text))
    }
}

/// Reads the answer of a script from its (lossily decoded) standard output.
pub fn osascript_answer(stdout_text: &str) -> (r: Option<String>)
    ensures
        match r {
            Some(t) => script_answer(stdout_text@) == Some(t@),
            None => script_answer(stdout_text@) is None,
        },
{
    let t = trim_str(stdout_text);
    if t.as_str().is_empty() {
        None
    } else {
        Some(t)
    }
}

/// A script answer, kept only when it is not blank.
pub open spec fn non_blank(answer: Option<Seq<char>>) -> Option<Seq<char>> {
    match answer {
        Some(a) => if is_blank(a) {
            None
        } else {
            Some(a)
        },
        None => None,
    }
}

/// The view of an optional string.
pub open spec fn opt_view(o: Option<String>) -> Option<Seq<char>> {
    match o {
        Some(s) => Some(s@),
        None => None,
    }
}

fn keep_non_blank(answer: Option<String>) -> (r: Option<String>)
    ensures
        opt_view(r) == non_blank(opt_view(answer)),
{
    match answer {
        Some(a) => if str_is_blank(a.as_str()) {
            None
        } else {
            Some(a)
        },
        None => None,
    }
}

/// The selected text from the Accessibility script's answer.
pub fn get_selected_text(answer: Option<String>) -> (r: Option<String>)
    ensures
        opt_view(r) == non_blank(opt_view(answer)),
{
    keep_non_blank(answer)
}

/// The window's text from the script that reads its elements.
pub fn get_window_text(answer: Option<String>) -> (r: Option<String>)
    ensures
        opt_view(r) == non_blank(opt_view(answer)),
{
    keep_non_blank(answer)
}

/// The front window's title from the System Events script.
pub fn active_window_title(answer: Option<String>) -> (r: Option<String>)
    ensures
        opt_view(r) == non_blank(opt_view(answer)),
{
    keep_non_blank(answer)
}

/// The front application's name, `Unknown` when the script gave none.
pub fn active_app_name(answer: Option<String>) -> (r: String)
    ensures
        r@ == match answer {
            Some(a) => a@,
            None => "Unknown"@,
        },
{
    match answer {
        Some(a) => a,
        None => String::from_str("Unknown"),
    }
}

/// The selection as a probe keeps it: trimmed, empty when there was none.
pub open spec fn probe_text(selected: Option<Seq<char>>) -> Seq<char> {
    match selected {
        Some(s) => trim(s),
        None => Seq::empty(),
    }
}

/// Whether the selected text (as the Accessibility script gave it) holds something.
pub fn has_selection(selected: &Option<String>) -> (r: bool)
    ensures
        r == (probe_text(opt_view(*selected)).len() > 0),
{
    match selected {
        Some(s) => !str_is_blank(s.as_str()),
        None => false,
    }
}

fn window_title_or_empty(window_title: Option<String>) -> (r: String)
    ensures
        r@ == match window_title {
            Some(t) => t@,
            None => Seq::<char>::empty(),
        },
{
    match window_title {
        Some(t) => t,
        None => String::new(),
    }
}

fn selected_or_empty(selected: Option<String>) -> (r: String)
    ensures
        r@ == probe_text(opt_view(selected)),
{
    match selected {
        Some(s) => trim_str(s.as_str()),
        None => String::new(),
    }
}

fn cursor_or_origin(cursor: Option<CursorPoint>) -> (r: CursorPoint)
    ensures
        r == match cursor {
            Some(c) => c,
            None => CursorPoint { x: 0, y: 0 },
        },
{
    match cursor {
        Some(c) => c,
        None => CursorPoint { x: 0, y: 0 },
    }
}

/// What a probe reports: nothing when no text is selected, else the trimmed selection, the
/// application, the window title (empty when unknown), the cursor (the origin when unknown),
/// read through Accessibility.
pub fn poll_selection(
    source_app: String,
    window_title: Option<String>,
    selected: Option<String>,
    cursor: Option<CursorPoint>,
) -> (r: Option<SelectionProbe>)
    ensures
        r is None <==> probe_text(opt_view(selected)).len() == 0,
        r matches Some(p) ==> {
            let title = match window_title {
                Some(t) => t@,
                None => Seq::<char>::empty(),
            };
            &&& p.selected_text@ == probe_text(opt_view(selected))
            &&& p.source_app@ == source_app@
            &&& p.window_title@ == title
            &&& p.selection_signature@ == signature_of(source_app@, title, p.selected_text@)
            &&& p.cursor == match cursor {
                Some(c) => c,
                None => CursorPoint { x: 0, y: 0 },
            }
            &&& p.selection_method@ == "accessibility"@
        },
{
    let window_title = window_title_or_empty(window_title);
    let selected_text = selected_or_empty(selected);
    if selected_text.as_str().is_empty() {
        return None;
    }
    let cursor = cursor_or_origin(cursor);
    let selection_signature = selection_signature(
        source_app.as_str(),
        window_title.as_str(),
        selected_text.as_str(),
    );
    Some(
        SelectionProbe {
            selection_signature,
            selected_text,
            source_app,
            window_title,
            cursor,
            selection_method: String::from_str("accessibility"),
        },
    )
}

/// What a full capture reports: nothing when no text is selected, else the probe's fields with
/// the window's text (empty when unknown), an empty window rectangle and the screenshot.
pub fn capture_context(
    source_app: String,
    window_title: Option<String>,
    selected: Option<String>,
    cursor: Option<CursorPoint>,
    window_text: Option<String>,
    screenshot_base64: String,
    screenshot_mime: String,
) -> (r: Option<SelectionContext>)
    ensures
        r is None <==> probe_text(opt_view(selected)).len() == 0,
        r matches Some(c) ==> {
            let title = match window_title {
                Some(t) => t@,
                None => Seq::<char>::empty(),
            };
            &&& c.selected_text@ == probe_text(opt_view(selected))
            &&& c.source_app@ == source_app@
            &&& c.window_title@ == title
            &&& c.selection_signature@ == signature_of(source_app@, title, c.selected_text@)
            &&& c.cursor == match cursor {
                Some(p) => p,
                None => CursorPoint { x: 0, y: 0 },
            }
            &&& c.window_rect == WindowRect { x: 0, y: 0, width: 0, height: 0 }
            &&& c.selection_method@ == "accessibility"@
            &&& c.window_text@ == match window_text {
                Some(t) => t@,
                None => Seq::<char>::empty(),
            }
            &&& c.screenshot_base64@ == screenshot_base64@
            &&& c.screenshot_mime@ == screenshot_mime@
        },
{
    let window_title = window_title_or_empty(window_title);
    let selected_text = selected_or_empty(selected);
    if selected_text.as_str().is_empty() {
        return None;
    }
    let cursor = cursor_or_origin(cursor);
    let window_text = window_title_or_empty(window_text);
    let selection_signature = selection_signature(
        source_app.as_str(),
        window_title.as_str(),
        selected_text.as_str(),
    );
    Some(
        SelectionContext {
            selection_signature,
            selected_text,
            source_app,
            window_title,
            cursor,
            window_rect: WindowRect { x: 0, y: 0, width: 0, height: 0 },
            selection_method: String::from_str("accessibility"),
            window_text,
            screenshot_base64,
            screenshot_mime,
        },
    )
}

} // verus!
