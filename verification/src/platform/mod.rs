//! What a selection probe and a context capture report, and the decisions taken on them that
//! do not depend on the operating system.
pub mod macos;
pub mod windows;

use vstd::prelude::*;
use crate::text::{chars_of, push_str, string_of, trim};

verus! {

/// A screen position in physical pixels.
pub struct CursorPoint {
    pub x: i32,
    pub y: i32,
}

/// A window's position and size in physical pixels.
pub struct WindowRect {
    pub x: i32,
    pub y: i32,
    pub width: i32,
    pub height: i32,
}

/// What the light probe after a mouse release found.
pub struct SelectionProbe {
    pub selected_text: String,
    pub selection_signature: String,
    pub source_app: String,
    pub window_title: String,
    pub cursor: CursorPoint,
    pub selection_method: String,
}

/// What the full capture before an AI request found.
pub struct SelectionContext {
    pub selected_text: String,
    pub selection_signature: String,
    pub source_app: String,
    pub window_title: String,
    pub cursor: CursorPoint,
    pub window_rect: WindowRect,
    pub selection_method: String,
    pub window_text: String,
    pub screenshot_base64: String,
    pub screenshot_mime: String,
}

impl CursorPoint {
    /// A copy of this point.
    pub fn copy(&self) -> (r: CursorPoint)
        ensures
            r == *self,
    {
        CursorPoint { x: self.x, y: self.y }
    }
}

/// ASCII lower case of one character (`char::to_ascii_lowercase`).
pub open spec fn ascii_lower(c: char) -> char {
    if 'A' <= c && c <= 'Z' {
        ((c as u32) + 32) as char
    } else {
        c
    }
}

/// ASCII lower case of a text (`str::to_ascii_lowercase`).
pub open spec fn ascii_lowercase(s: Seq<char>) -> Seq<char> {
    s.map_values(|c: char| ascii_lower(c))
}

/// Whether a window belongs to this application, by its process name or title.
pub open spec fn is_own_window(source_app: Seq<char>, window_title: Seq<char>) -> bool {
    let source = ascii_lowercase(trim(source_app));
    let title = ascii_lowercase(trim(window_title));
    source == "select2explain"@ || title == "select2explain"@ || title == "select2explain popup"@
}

fn to_ascii_lowercase(v: &[char]) -> (r: Vec<char>)
    ensures
        r@ == ascii_lowercase(v@),
{
    let mut r: Vec<char> = Vec::new();
    let mut i: usize = 0;
    while i < v.len()
        invariant
            i <= v@.len(),
            r@ == ascii_lowercase(v@.take(i as int)),
        decreases v@.len() - i,
    {
        let c = v[i];
        let l = if 'A' <= c && c <= 'Z' {
            ((c as u8) + 32) as char
        } else {
            c
        };
        assert(l == ascii_lower(c)) by {
            if 'A' <= c && c <= 'Z' {
                assert((c as u8) as u32 == c as u32);
            }
        }
        r.push(l);
        i = i + 1;
        assert(ascii_lowercase(v@.take(i as int)) =~= ascii_lowercase(v@.take(i - 1)).push(l));
    }
    assert(v@.take(v@.len() as int) =~= v@);
    r
}

fn same_chars(a: &[char], b: &[char]) -> (r: bool)
    ensures
        r == (a@ == b@),
{
    if a.len() != b.len() {
        return false;
    }
    let mut i: usize = 0;
    while i < a.len()
        invariant
            a@.len() == b@.len(),
            i <= a@.len(),
            forall|k: int| 0 <= k < i ==> a@[k] == b@[k],
        decreases a@.len() - i,
    {
        if a[i] != b[i] {
            return false;
        }
        i = i + 1;
    }
    assert(a@ =~= b@);
    true
}

/// Whether the selection was made in this application's own windows, which are ignored.
pub fn is_our_window(source_app: &str, window_title: &str) -> (r: bool)
    ensures
        r == is_own_window(source_app@, window_title@),
{
    let s = chars_of(source_app);
    let source = to_ascii_lowercase(&crate::text::trim_chars(&s));
    let t = chars_of(window_title);
    let title = to_ascii_lowercase(&crate::text::trim_chars(&t));
    let name = chars_of("select2explain");
    let popup = chars_of("select2explain popup");
    same_chars(&source, &name) || same_chars(&title, &name) || same_chars(&title, &popup)
}

/// Whether the key state that `GetAsyncKeyState` reports marks the key as held down
/// (its most significant bit).
pub fn primary_mouse_button_pressed(key_state: i16) -> (r: bool)
    ensures
        r == (key_state < 0),
{
    let bits = key_state as u16;
    let r = (bits & 0x8000u16) != 0;
    assert(r == (key_state < 0)) by (bit_vector)
        requires
            bits == key_state as u16,
            r == ((bits & 0x8000u16) != 0),
    ;
    r
}

/// The signature that tells one selection from another: application, window title and text.
pub open spec fn signature_of(source_app: Seq<char>, window_title: Seq<char>, text: Seq<char>) -> Seq<char> {
    source_app + "|"@ + window_title + "|"@ + text
}

/// Builds the signature of a selection.
pub fn selection_signature(source_app: &str, window_title: &str, text: &str) -> (r: String)
    ensures
        r@ == signature_of(source_app@, window_title@, text@),
{
    let mut v = chars_of(source_app);
    push_str(&mut v, "|");
    push_str(&mut v, window_title);
    push_str(&mut v, "|");
    push_str(&mut v, text);
    string_of(&v)
}

/// The window whose last empty probe was logged: application and title.
pub open spec fn empty_probe_key(source_app: Seq<char>, window_title: Seq<char>) -> Seq<char> {
    source_app + "|"@ + window_title
}

/// Records a probe that found no selection; returns whether it should be logged, which is
/// when the last logged empty probe was in another window.
pub fn log_empty_probe_once(last: &mut String, source_app: &str, window_title: &str) -> (r: bool)
    ensures
        r == (old(last)@ != empty_probe_key(source_app@, window_title@)),
        final(last)@ == empty_probe_key(source_app@, window_title@),
{
    let mut v = chars_of(source_app);
    push_str(&mut v, "|");
    push_str(&mut v, window_title);
    let key = string_of(&v);
    if *last == key {
        return false;
    }
    *last = key;
    true
}

} // verus!
