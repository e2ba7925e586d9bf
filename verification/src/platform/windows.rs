//! The decisions of the Windows capture: which reading of the selection counts, how the
//! window's texts are cleaned and gathered, and what a probe or a capture reports.
//! The UI Automation, Win32 and GDI reads themselves stay with the caller.
use vstd::prelude::*;
use crate::platform::{
    signature_of, CursorPoint, SelectionContext, SelectionProbe, WindowRect, selection_signature,
};
use crate::text::{
    chars_of, find, find_in_rest, is_blank, push_decimal, push_range, push_str, string_of, trim,
    trim_chars, decimal,
};

verus! {

/// How much a capture reads.
#[derive(Clone, Copy, PartialEq, Eq, Structural)]
pub enum CaptureMode {
    /// The light read after a mouse release: the selection and the window's identity.
    Probe,
    /// The read before an AI request, with the window's text.
    Full,
}

impl CaptureMode {
    /// The mode's name in logs.
    pub fn as_str(self) -> (r: &'static str)
        ensures
            r@ == (match self {
                CaptureMode::Probe => "probe"@,
                CaptureMode::Full => "full"@,
            }),
    {
        match self {
            CaptureMode::Probe => "probe",
            CaptureMode::Full => "full",
        }
    }

    /// Whether the selection is also looked for in the window's descendants.
    pub fn include_descendants(self) -> (r: bool)
        ensures
            r,
    {
        match self {
            CaptureMode::Probe | CaptureMode::Full => true,
        }
    }

    /// Whether copying to the clipboard may stand in for an unreadable selection.
    pub fn allow_clipboard_fallback(self) -> (r: bool)
        ensures
            r == (self == CaptureMode::Full),
    {
        matches!(self, CaptureMode::Full)
    }

    /// Whether the window's text is read.
    pub fn include_window_text(self) -> (r: bool)
        ensures
            r == (self == CaptureMode::Full),
    {
        matches!(self, CaptureMode::Full)
    }

    /// Whether a screenshot is taken.
    pub fn include_screenshot(self) -> (r: bool)
        ensures
            !r,
    {
        false
    }
}

/// `s` with `\r\n` and lone `\r` made `\n`.
pub open spec fn unify_line_breaks(s: Seq<char>) -> Seq<char>
    decreases s.len(),
{
    if s.len() == 0 {
        s
    } else if s.len() >= 2 && s[0] == '\r' && s[1] == '\n' {
        seq!['\n'] + unify_line_breaks(s.skip(2))
    } else if s[0] == '\r' {
        seq!['\n'] + unify_line_breaks(s.drop_first())
    } else {
        seq![s[0]] + unify_line_breaks(s.drop_first())
    }
}

/// A line break.
pub open spec fn newline() -> Seq<char> {
    seq!['\n']
}

/// `t` as a list of lines: itself when not empty, no line otherwise.
pub open spec fn kept(t: Seq<char>) -> Seq<Seq<char>> {
    if t.len() > 0 {
        seq![t]
    } else {
        Seq::empty()
    }
}

/// The lines of `s`, each trimmed, the empty ones left out.
pub open spec fn kept_lines(s: Seq<char>) -> Seq<Seq<char>>
    decreases s.len(),
{
    match find(s, newline()) {
        Some(i) => {
            if 0 <= i < s.len() {
                kept(trim(s.take(i))) + kept_lines(s.skip(i + 1))
            } else {
                kept(trim(s))
            }
        },
        None => kept(trim(s)),
    }
}

/// Lines joined with `\n`.
pub open spec fn join_lines(lines: Seq<Seq<char>>) -> Seq<char>
    decreases lines.len(),
{
    if lines.len() == 0 {
        Seq::empty()
    } else if lines.len() == 1 {
        lines[0]
    } else {
        join_lines(lines.drop_last()) + newline() + lines.last()
    }
}

/// A text as captures keep it: its non-blank lines, trimmed, joined with `\n`, and cut after
/// `limit` characters unless `limit` is zero.
pub open spec fn normalized_text(s: Seq<char>, limit: nat) -> Seq<char> {
    let n = join_lines(kept_lines(unify_line_breaks(s)));
    if limit == 0 || n.len() <= limit {
        n
    } else {
        n.take(limit as int)
    }
}

fn unify_breaks(value: &[char]) -> (r: Vec<char>)
    ensures
        r@ == unify_line_breaks(value@),
{
    let mut out: Vec<char> = Vec::new();
    let mut i: usize = 0;
    let n = value.len();
    assert(value@.skip(0) =~= value@);
    while i < n
        invariant
            i <= n == value@.len(),
            unify_line_breaks(value@) == out@ + unify_line_breaks(value@.skip(i as int)),
        decreases n - i,
    {
        let ghost rest = value@.skip(i as int);
        let c = value[i];
        if c == '\r' && i + 1 < n && value[i + 1] == '\n' {
            out.push('\n');
            proof {
                assert(rest[0] == '\r' && rest[1] == '\n');
                assert(rest.skip(2) =~= value@.skip(i + 2));
            }
            i = i + 2;
        } else if c == '\r' {
            out.push('\n');
            proof {
                assert(rest[0] == c);
                assert(rest.drop_first() =~= value@.skip(i + 1));
            }
            i = i + 1;
        } else {
            out.push(c);
            proof {
                assert(rest[0] == c);
                assert(rest.drop_first() =~= value@.skip(i + 1));
            }
            i = i + 1;
        }
    }
    assert(value@.skip(n as int) =~= Seq::<char>::empty());
    out
}

proof fn lemma_join_push(lines: Seq<Seq<char>>, t: Seq<char>)
    ensures
        join_lines(lines.push(t)) == if lines.len() == 0 {
            t
        } else {
            join_lines(lines) + newline() + t
        },
{
    assert(lines.push(t).drop_last() =~= lines);
}

proof fn lemma_join_empty(lines: Seq<Seq<char>>)
    requires
        forall|k: int| 0 <= k < lines.len() ==> (#[trigger] lines[k]).len() > 0,
    ensures
        (join_lines(lines).len() == 0) == (lines.len() == 0),
    decreases lines.len(),
{
    if lines.len() > 1 {
        assert(lines.last() == lines[lines.len() - 1]);
    } else if lines.len() == 1 {
        assert(lines[0].len() > 0);
    }
}

/// Cleans a text read from a window: line breaks unified, lines trimmed, blank lines dropped,
/// at most `limit` characters kept (all of them when `limit` is zero).
pub fn normalize_text(value: &str, limit: usize) -> (r: String)
    ensures
        r@ == normalized_text(value@, limit as nat),
{
    let v0 = chars_of(value);
    let v = unify_breaks(&v0);
    let mut nl: Vec<char> = Vec::new();
    nl.push('\n');
    assert(nl@ =~= newline());
    let n = v.len();
    let mut out: Vec<char> = Vec::new();
    let mut pos: usize = 0;
    let ghost mut acc: Seq<Seq<char>> = Seq::empty();
    assert(v@.skip(0) =~= v@);
    loop
        invariant_except_break
            kept_lines(v@) == acc + kept_lines(v@.skip(pos as int)),
        invariant
            n == v@.len(),
            pos <= n,
            nl@ == newline(),
            out@ == join_lines(acc),
            forall|k: int| 0 <= k < acc.len() ==> (#[trigger] acc[k]).len() > 0,
        ensures
            kept_lines(v@) == acc,
        decreases n - pos,
    {
        let ghost rest = v@.skip(pos as int);
        let ghost acc0 = acc;
        let found = find_in_rest(&v, &nl, pos);
        let end = match found {
            Some(j) => pos + j,
            None => n,
        };
        proof {
            if found is Some {
                crate::text::lemma_find_matches(rest, newline());
            }
        }
        let mut line: Vec<char> = Vec::new();
        push_range(&mut line, &v, pos, end);
        let t = trim_chars(&line);
        proof {
            lemma_join_empty(acc);
            lemma_join_push(acc, t@);
        }
        if t.len() > 0 {
            if out.len() > 0 {
                out.push('\n');
            }
            let mut k: usize = 0;
            let ghost before = out@;
            while k < t.len()
                invariant
                    k <= t@.len(),
                    out@ == before + t@.take(k as int),
                decreases t@.len() - k,
            {
                out.push(t[k]);
                k = k + 1;
                assert(t@.take(k as int) == t@.take(k - 1).push(t@[k - 1]));
            }
            assert(t@.take(t@.len() as int) =~= t@);
            proof {
                acc = acc.push(t@);
                assert forall|k: int| 0 <= k < acc.len() implies (#[trigger] acc[k]).len() > 0 by {
                    if k < acc.len() - 1 {
                        assert(acc[k] == acc.drop_last()[k]);
                    }
                }
            }
        }
        match found {
            Some(_) => {
                proof {
                    assert(rest.take(end - pos) =~= line@);
                    assert(rest.skip(end - pos + 1) =~= v@.skip(end + 1));
                    assert(kept_lines(rest) == kept(trim(line@)) + kept_lines(
                        v@.skip(end + 1),
                    ));
                }
                pos = end + 1;
                proof {
                    if t@.len() > 0 {
                        assert(acc =~= acc0 + kept(t@));
                    } else {
                        assert(acc =~= acc0 + kept(t@));
                    }
                    assert(acc0 + (kept(t@) + kept_lines(v@.skip(pos as int))) =~= acc + kept_lines(v@.skip(pos as int)));
                }
            },
            None => {
                proof {
                    assert(line@ =~= rest);
                    assert(kept_lines(rest) == kept(trim(rest)));
                    if t@.len() > 0 {
                        assert(acc == acc0 + kept(t@));
                    } else {
                        assert(acc =~= acc0 + kept(t@));
                    }
                }
                break;
            },
        }
    }
    if limit != 0 && out.len() > limit {
        let mut cut: Vec<char> = Vec::new();
        push_range(&mut cut, &out, 0, limit);
        assert(out@.subrange(0, limit as int) == out@.take(limit as int));
        return string_of(&cut);
    }
    string_of(&out)
}

/// The number of bytes that `c` takes in UTF-8 (`char::len_utf8`).
pub open spec fn char_width(c: char) -> nat {
    let u = c as u32;
    if u < 0x80 {
        1
    } else if u < 0x800 {
        2
    } else if u < 0x10000 {
        3
    } else {
        4
    }
}

/// The number of bytes of `s` in UTF-8 (`str::len`).
pub open spec fn utf8_len(s: Seq<char>) -> nat
    decreases s.len(),
{
    if s.len() == 0 {
        0
    } else {
        utf8_len(s.drop_last()) + char_width(s.last())
    }
}

/// The views of a list of strings.
pub open spec fn texts(v: Seq<String>) -> Seq<Seq<char>> {
    v.map_values(|s: String| s@)
}

/// The total UTF-8 length of `values`.
pub open spec fn total_utf8_len(values: Seq<Seq<char>>) -> nat
    decreases values.len(),
{
    if values.len() == 0 {
        0
    } else {
        total_utf8_len(values.drop_last()) + utf8_len(values.last())
    }
}

/// The UTF-8 length of `values` joined with `\n`.
pub open spec fn joined_byte_len(values: Seq<Seq<char>>) -> nat {
    total_utf8_len(values) + if values.len() > 0 {
        (values.len() - 1) as nat
    } else {
        0
    }
}

/// `values` after offering `text`: its normalized form is added unless it is shorter than two
/// bytes or already there.
pub open spec fn with_unique(values: Seq<Seq<char>>, text: Option<Seq<char>>, limit: nat) -> Seq<Seq<char>> {
    match text {
        None => values,
        Some(t) => {
            let n = normalized_text(t, limit);
            if utf8_len(n) < 2 || values.contains(n) {
                values
            } else {
                values.push(n)
            }
        },
    }
}

/// Whether no two entries of `values` are equal.
pub open spec fn no_repeats(values: Seq<Seq<char>>) -> bool {
    forall|i: int, j: int| 0 <= i < j < values.len() ==> values[i] != values[j]
}

/// Offering a text never brings in a second copy of a gathered text: when its normalized form
/// equals any gathered entry the list stays as it is; otherwise the list keeps its entries
/// and at most gains that normalized form at its end; so a list without repeats keeps none.
pub proof fn gathered_texts_stay_unique(values: Seq<Seq<char>>, text: Seq<char>, limit: nat)
    ensures
        (exists|k: int| 0 <= k < values.len() && values[k] == normalized_text(text, limit))
            ==> with_unique(values, Some(text), limit) == values,
        with_unique(values, Some(text), limit) == values || with_unique(values, Some(text), limit)
            == values.push(normalized_text(text, limit)),
        no_repeats(values) ==> no_repeats(with_unique(values, Some(text), limit)),
        with_unique(values, None, limit) == values,
{
    let n = normalized_text(text, limit);
    if exists|k: int| 0 <= k < values.len() && values[k] == n {
        let k = choose|k: int| 0 <= k < values.len() && values[k] == n;
        assert(values.contains(n));
    }
    let r = with_unique(values, Some(text), limit);
    if no_repeats(values) && r != values {
        assert(!values.contains(n));
        assert forall|i: int, j: int| 0 <= i < j < r.len() implies r[i] != r[j] by {
            if j == values.len() {
                assert(r[j] == n);
                assert(r[i] == values[i]);
            } else {
                assert(r[i] == values[i] && r[j] == values[j]);
            }
        }
    }
}

proof fn lemma_utf8_len_ge(s: Seq<char>)
    ensures
        utf8_len(s) >= s.len(),
    decreases s.len(),
{
    if s.len() > 0 {
        lemma_utf8_len_ge(s.drop_last());
    }
}

fn char_width_of(c: char) -> (r: usize)
    ensures
        r == char_width(c),
{
    let u = c as u32;
    if u < 0x80 {
        1
    } else if u < 0x800 {
        2
    } else if u < 0x10000 {
        3
    } else {
        4
    }
}

/// Whether `s` takes fewer than two bytes in UTF-8.
fn shorter_than_two_bytes(s: &[char]) -> (r: bool)
    ensures
        r == (utf8_len(s@) < 2),
{
    proof {
        lemma_utf8_len_ge(s@);
        if s@.len() == 1 {
            assert(s@.drop_last() =~= Seq::<char>::empty());
            assert(s@.last() == s@[0]);
            assert(utf8_len(s@) == utf8_len(s@.drop_last()) + char_width(s@.last()));
            assert(utf8_len(Seq::<char>::empty()) == 0);
        }
    }
    s.len() == 0 || (s.len() == 1 && char_width_of(s[0]) == 1)
}

/// The UTF-8 length of `s`, or `usize::MAX` if it does not fit.
fn utf8_len_of(s: &str) -> (r: usize)
    ensures
        r == if utf8_len(s@) <= usize::MAX {
            utf8_len(s@)
        } else {
            usize::MAX as nat
        },
{
    let v = chars_of(s);
    let mut total: usize = 0;
    let mut i: usize = 0;
    while i < v.len()
        invariant
            i <= v@.len(),
            total == if utf8_len(v@.take(i as int)) <= usize::MAX {
                utf8_len(v@.take(i as int))
            } else {
                usize::MAX as nat
            },
        decreases v@.len() - i,
    {
        assert(v@.take(i + 1).drop_last() =~= v@.take(i as int));
        total = total.saturating_add(char_width_of(v[i]));
        i = i + 1;
    }
    assert(v@.take(v@.len() as int) =~= v@);
    total
}

/// The length in bytes of `values` joined with `\n`, or `usize::MAX` if it does not fit.
pub fn joined_len(values: &[String]) -> (r: usize)
    ensures
        r == if joined_byte_len(texts(values@)) <= usize::MAX {
            joined_byte_len(texts(values@))
        } else {
            usize::MAX as nat
        },
{
    let mut total: usize = 0;
    let mut i: usize = 0;
    while i < values.len()
        invariant
            i <= values@.len(),
            total == if total_utf8_len(texts(values@.take(i as int))) <= usize::MAX {
                total_utf8_len(texts(values@.take(i as int)))
            } else {
                usize::MAX as nat
            },
        decreases values@.len() - i,
    {
        assert(texts(values@.take(i + 1)).drop_last() =~= texts(values@.take(i as int)));
        assert(texts(values@.take(i + 1)).last() == values@[i as int]@);
        total = total.saturating_add(utf8_len_of(values[i].as_str()));
        i = i + 1;
    }
    assert(values@.take(values@.len() as int) =~= values@);
    let seps = if values.len() > 0 {
        values.len() - 1
    } else {
        0
    };
    total.saturating_add(seps)
}

/// Offers a text read from a window: its normalized form is kept unless it is shorter than
/// two bytes or already kept.
#[verifier::loop_isolation(false)]
pub fn push_unique_text(values: &mut Vec<String>, maybe_text: Option<String>, limit: usize)
    ensures
        texts(final(values)@) == with_unique(
            texts(old(values)@),
            match maybe_text {
                Some(t) => Some(t@),
                None => None,
            },
            limit as nat,
        ),
{
    let ghost offered = match &maybe_text {
        Some(t) => Some(t@),
        None => None::<Seq<char>>,
    };
    let raw = match maybe_text {
        Some(t) => t,
        None => return,
    };
    assert(offered == Some(raw@));
    let text = normalize_text(raw.as_str(), limit);
    let tv = chars_of(text.as_str());
    if shorter_than_two_bytes(&tv) {
        return;
    }
    let mut i: usize = 0;
    while i < values.len()
        invariant
            i <= values@.len(),
            values@ == old(values)@,
            forall|k: int| 0 <= k < i ==> values@[k]@ != text@,
        decreases values@.len() - i,
    {
        if values[i] == text {
            proof {
                assert(values@[i as int]@ == text@);
                assert(texts(values@)[i as int] == text@);
                assert(texts(values@).contains(text@));
                assert(texts(values@) == texts(old(values)@));
                assert(with_unique(texts(old(values)@), offered, limit as nat) == texts(values@));
            }
            return;
        }
        i = i + 1;
    }
    proof {
        assert forall|k: int| 0 <= k < texts(values@).len() implies texts(values@)[k] != text@ by {
            assert(texts(values@)[k] == values@[k]@);
        }
    }
    values.push(text);
    assert(texts(values@) =~= texts(old(values)@).push(text@));
}

/// Joins texts with `\n` (`[String]::join`).
fn join_with_newlines(values: &[String]) -> (r: String)
    ensures
        r@ == join_lines(texts(values@)),
{
    let mut out: Vec<char> = Vec::new();
    let mut i: usize = 0;
    while i < values.len()
        invariant
            i <= values@.len(),
            out@ == join_lines(texts(values@.take(i as int))),
        decreases values@.len() - i,
    {
        proof {
            lemma_join_push(texts(values@.take(i as int)), values@[i as int]@);
            assert(texts(values@.take(i + 1)) =~= texts(values@.take(i as int)).push(
                values@[i as int]@,
            ));
        }
        if i > 0 {
            out.push('\n');
        }
        push_str(&mut out, values[i].as_str());
        i = i + 1;
    }
    assert(values@.take(values@.len() as int) =~= values@);
    string_of(&out)
}

/// Window text stops being gathered once it reaches this many bytes.
pub const WINDOW_TEXT_LIMIT: usize = 12_000;

/// Gathers the texts of a window: those of the window itself, then those of its descendants
/// until the gathered text reaches `WINDOW_TEXT_LIMIT` bytes.
pub struct WindowTextCollector {
    pub values: Vec<String>,
}

impl WindowTextCollector {
    /// A collector that holds nothing yet.
    pub fn new() -> (r: WindowTextCollector)
        ensures
            r.values@.len() == 0,
    {
        WindowTextCollector { values: Vec::new() }
    }

    /// Whether the gathered text has reached the limit.
    pub fn is_full(&self) -> (r: bool)
        ensures
            r == (joined_byte_len(texts(self.values@)) >= WINDOW_TEXT_LIMIT),
    {
        joined_len(self.values.as_slice()) >= WINDOW_TEXT_LIMIT
    }

    /// Offers a text of the window itself.
    pub fn push_root(&mut self, part: Option<String>, limit: usize)
        ensures
            texts(final(self).values@) == with_unique(
                texts(old(self).values@),
                match part {
                    Some(t) => Some(t@),
                    None => None,
                },
                limit as nat,
            ),
    {
        push_unique_text(&mut self.values, part, limit);
    }

    /// Offers a text of a descendant; returns false, and keeps nothing, once the gathered text
    /// has reached the limit, which ends the gathering.
    pub fn push_descendant(&mut self, part: Option<String>, limit: usize) -> (taken: bool)
        ensures
            taken == (joined_byte_len(texts(old(self).values@)) < WINDOW_TEXT_LIMIT),
            taken ==> texts(final(self).values@) == with_unique(
                texts(old(self).values@),
                match part {
                    Some(t) => Some(t@),
                    None => None,
                },
                limit as nat,
            ),
            !taken ==> final(self).values@ == old(self).values@,
    {
        if self.is_full() {
            return false;
        }
        push_unique_text(&mut self.values, part, limit);
        true
    }

    /// The window text: the gathered texts joined with `\n`, normalized, at most
    /// `WINDOW_TEXT_LIMIT` characters.
    pub fn finish(&self) -> (r: String)
        ensures
            r@ == normalized_text(join_lines(texts(self.values@)), WINDOW_TEXT_LIMIT as nat),
    {
        let joined = join_with_newlines(self.values.as_slice());
        normalize_text(joined.as_str(), WINDOW_TEXT_LIMIT)
    }
}

/// A text read through a UI Automation pattern, normalized, or nothing when that leaves it empty.
pub open spec fn pattern_text(value: Option<Seq<char>>, limit: nat) -> Option<Seq<char>> {
    match value {
        Some(v) => if normalized_text(v, limit).len() > 0 {
            Some(normalized_text(v, limit))
        } else {
            None
        },
        None => None,
    }
}

/// Normalizes a text read through a UI Automation pattern; an empty result counts as none.
pub fn read_pattern_text(value: Option<String>, limit: usize) -> (r: Option<String>)
    ensures
        match r {
            Some(t) => pattern_text(
                match value {
                    Some(v) => Some(v@),
                    None => None,
                },
                limit as nat,
            ) == Some(t@),
            None => pattern_text(
                match value {
                    Some(v) => Some(v@),
                    None => None,
                },
                limit as nat,
            ) is None,
        },
{
    match value {
        Some(v) => {
            let n = normalize_text(v.as_str(), limit);
            if n.as_str().is_empty() {
                None
            } else {
                Some(n)
            }
        },
        None => None,
    }
}

/// The texts of the selected ranges, normalized to at most 4000 characters each, the empty
/// ones left out.
pub open spec fn range_texts(ranges: Seq<Seq<char>>) -> Seq<Seq<char>>
    decreases ranges.len(),
{
    if ranges.len() == 0 {
        Seq::empty()
    } else {
        range_texts(ranges.drop_last()) + kept(normalized_text(ranges.last(), 4000))
    }
}

/// The selection read through a text pattern: its ranges joined with `\n`, none if empty.
pub open spec fn ranges_selection(ranges: Seq<Seq<char>>) -> Option<Seq<char>> {
    let j = join_lines(range_texts(ranges));
    if j.len() == 0 {
        None
    } else {
        Some(j)
    }
}

/// Joins the texts of the selected ranges of a text pattern.
pub fn selection_from_ranges(ranges: Vec<String>) -> (r: Option<String>)
    ensures
        match r {
            Some(t) => ranges_selection(texts(ranges@)) == Some(t@),
            None => ranges_selection(texts(ranges@)) is None,
        },
{
    let mut collected: Vec<String> = Vec::new();
    let mut i: usize = 0;
    while i < ranges.len()
        invariant
            i <= ranges@.len(),
            texts(collected@) == range_texts(texts(ranges@.take(i as int))),
            forall|k: int| 0 <= k < collected@.len() ==> (#[trigger] collected@[k])@.len() > 0,
        decreases ranges@.len() - i,
    {
        let t = normalize_text(ranges[i].as_str(), 4000);
        proof {
            assert(texts(ranges@.take(i + 1)).drop_last() =~= texts(ranges@.take(i as int)));
            assert(texts(ranges@.take(i + 1)).last() == ranges@[i as int]@);
        }
        let ghost before = collected@;
        if !t.as_str().is_empty() {
            collected.push(t);
            proof {
                assert(texts(collected@) =~= texts(before).push(t@));
            }
        }
        proof {
            if t@.len() > 0 {
                assert(texts(collected@) =~= range_texts(texts(ranges@.take(i as int))) + kept(t@));
            } else {
                assert(texts(collected@) =~= range_texts(texts(ranges@.take(i as int))) + kept(t@));
            }
        }
        i = i + 1;
    }
    assert(ranges@.take(ranges@.len() as int) =~= ranges@);
    let joined = join_with_newlines(collected.as_slice());
    proof {
        assert forall|k: int| 0 <= k < texts(collected@).len() implies (#[trigger] texts(
            collected@,
        )[k]).len() > 0 by {
            assert(texts(collected@)[k] == collected@[k]@);
        }
        lemma_join_empty(texts(collected@));
    }
    if joined.as_str().is_empty() {
        None
    } else {
        Some(joined)
    }
}

/// The selection that a capture settled on, and how it was read.
pub struct SelectionData {
    pub text: String,
    pub method: String,
}

/// The selection chosen among the readings, in order of preference: the focused element's
/// text pattern, a descendant's text pattern (when the mode scans descendants), the clipboard
/// copy (when the mode allows it and it is not empty); none otherwise.
pub open spec fn chosen_selection(
    mode: CaptureMode,
    focused: Option<Seq<char>>,
    descendant: Option<Seq<char>>,
    clipboard: Option<Seq<char>>,
) -> (Seq<char>, Seq<char>) {
    if focused is Some {
        (focused->0, "uia-focused"@)
    } else if descendant is Some {
        (descendant->0, "uia-descendant"@)
    } else if mode == CaptureMode::Full && clipboard is Some && clipboard->0.len() > 0 {
        (clipboard->0, "clipboard-copy"@)
    } else {
        (Seq::empty(), Seq::empty())
    }
}

/// What the focused element or a descendant reads is chosen whatever the mode: the probe after
/// a mouse release and the full capture agree whenever either reading is there, the focused
/// one first; the clipboard copy only ever counts for the full capture; and with no reading
/// at all the probe reports no selection.
pub proof fn uia_readings_win_in_every_mode(
    focused: Option<Seq<char>>,
    descendant: Option<Seq<char>>,
    clipboard: Option<Seq<char>>,
)
    ensures
        focused is Some ==> chosen_selection(CaptureMode::Probe, focused, descendant, clipboard)
            == (focused->0, "uia-focused"@) && chosen_selection(CaptureMode::Full, focused, descendant, clipboard)
            == (focused->0, "uia-focused"@),
        focused is None && descendant is Some ==> chosen_selection(CaptureMode::Probe, focused, descendant, clipboard)
            == (descendant->0, "uia-descendant"@) && chosen_selection(
            CaptureMode::Full,
            focused,
            descendant,
            clipboard,
        ) == (descendant->0, "uia-descendant"@),
        focused is None && descendant is None ==> chosen_selection(
            CaptureMode::Probe,
            focused,
            descendant,
            clipboard,
        ) == (Seq::<char>::empty(), Seq::<char>::empty()),
        (focused is None && descendant is None && clipboard is Some && clipboard->0.len() > 0) ==> chosen_selection(
            CaptureMode::Full,
            focused,
            descendant,
            clipboard,
        ) == (clipboard->0, "clipboard-copy"@),
{
}

/// The view of an optional string.
pub open spec fn opt_view(o: Option<String>) -> Option<Seq<char>> {
    match o {
        Some(s) => Some(s@),
        None => None,
    }
}

/// Whether the descendants must be scanned, given what the focused element gave.
pub fn needs_descendant_scan(mode: CaptureMode, focused: &Option<String>) -> (r: bool)
    ensures
        r == (focused is None),
{
    focused.is_none() && mode.include_descendants()
}

/// Whether the clipboard copy must be tried, given what the other readings gave.
pub fn needs_clipboard_fallback(
    mode: CaptureMode,
    focused: &Option<String>,
    descendant: &Option<String>,
) -> (r: bool)
    ensures
        r == (focused is None && descendant is None && mode == CaptureMode::Full),
{
    focused.is_none() && descendant.is_none() && mode.allow_clipboard_fallback()
}

/// Settles on a selection from the readings (a reading that was not taken is `None`).
pub fn choose_selection(
    mode: CaptureMode,
    focused: Option<String>,
    descendant: Option<String>,
    clipboard: Option<String>,
) -> (r: SelectionData)
    ensures
        (r.text@, r.method@) == chosen_selection(
            mode,
            opt_view(focused),
            opt_view(descendant),
            opt_view(clipboard),
        ),
{
    if let Some(text) = focused {
        return SelectionData { text, method: String::from_str("uia-focused") };
    }
    if let Some(text) = descendant {
        return SelectionData { text, method: String::from_str("uia-descendant") };
    }
    if mode.allow_clipboard_fallback() {
        if let Some(text) = clipboard {
            if !text.as_str().is_empty() {
                return SelectionData { text, method: String::from_str("clipboard-copy") };
            }
        }
    }
    SelectionData { text: String::new(), method: String::new() }
}

/// A window's rectangle from its edges; width and height are at least one.
pub fn window_rect_from_bounds(left: i32, top: i32, right: i32, bottom: i32) -> (r: WindowRect)
    requires
        i32::MIN <= right - left <= i32::MAX,
        i32::MIN <= bottom - top <= i32::MAX,
    ensures
        r.x == left,
        r.y == top,
        r.width == if right - left >= 1 { right - left } else { 1 },
        r.height == if bottom - top >= 1 { bottom - top } else { 1 },
{
    let w = right - left;
    let h = bottom - top;
    WindowRect { x: left, y: top, width: if w >= 1 { w } else { 1 }, height: if h >= 1 { h } else { 1 } }
}

/// The name of the application that owns a window: its process name, or `pid-` and the
/// process id when the name cannot be read.
pub fn source_app_name(process_name: Option<String>, process_id: u32) -> (r: String)
    ensures
        r@ == match process_name {
            Some(n) => n@,
            None => "pid-"@ + decimal(process_id as nat),
        },
{
    match process_name {
        Some(n) => n,
        None => {
            let mut v: Vec<char> = Vec::new();
            push_str(&mut v, "pid-");
            push_decimal(&mut v, process_id as u64);
            string_of(&v)
        },
    }
}

/// The cursor position, or the window's top-left corner when it could not be read.
pub fn cursor_or_window_corner(cursor: Option<CursorPoint>, rect: &WindowRect) -> (r: CursorPoint)
    ensures
        r == match cursor {
            Some(c) => c,
            None => CursorPoint { x: rect.x, y: rect.y },
        },
{
    match cursor {
        Some(c) => c,
        None => CursorPoint { x: rect.x, y: rect.y },
    }
}

/// Everything that one capture read.
pub struct CaptureEnvelope {
    pub source_app: String,
    pub window_title: String,
    pub cursor: CursorPoint,
    pub window_rect: WindowRect,
    pub selected_text: String,
    pub selection_method: String,
    pub window_text: String,
    pub screenshot_mime: String,
    pub screenshot_base64: String,
    pub selection_signature: String,
}

impl CaptureEnvelope {
    /// Puts a capture's readings together and signs the selection with the application, the
    /// window title and the selected text.
    pub fn new(
        source_app: String,
        window_title: String,
        cursor: CursorPoint,
        window_rect: WindowRect,
        selection: SelectionData,
        window_text: String,
        screenshot_mime: String,
        screenshot_base64: String,
    ) -> (r: CaptureEnvelope)
        ensures
            r.source_app@ == source_app@,
            r.window_title@ == window_title@,
            r.cursor == cursor,
            r.window_rect == window_rect,
            r.selected_text@ == selection.text@,
            r.selection_method@ == selection.method@,
            r.window_text@ == window_text@,
            r.screenshot_mime@ == screenshot_mime@,
            r.screenshot_base64@ == screenshot_base64@,
            r.selection_signature@ == signature_of(source_app@, window_title@, selection.text@),
    {
        let selection_signature = selection_signature(
            source_app.as_str(),
            window_title.as_str(),
            selection.text.as_str(),
        );
        CaptureEnvelope {
            source_app,
            window_title,
            cursor,
            window_rect,
            selected_text: selection.text,
            selection_method: selection.method,
            window_text,
            screenshot_mime,
            screenshot_base64,
            selection_signature,
        }
    }
}

/// What a probe reports of a capture: nothing when the selection is blank, else the trimmed
/// selection with the window's identity.
pub fn poll_selection(capture: CaptureEnvelope) -> (r: Option<SelectionProbe>)
    ensures
        r is None <==> trim(capture.selected_text@).len() == 0,
        r matches Some(p) ==> {
            &&& p.selected_text@ == trim(capture.selected_text@)
            &&& p.selection_signature@ == capture.selection_signature@
            &&& p.source_app@ == capture.source_app@
            &&& p.window_title@ == capture.window_title@
            &&& p.cursor == capture.cursor
            &&& p.selection_method@ == capture.selection_method@
        },
{
    let selected_text = crate::text::trim_str(capture.selected_text.as_str());
    if selected_text.as_str().is_empty() {
        return None;
    }
    Some(
        SelectionProbe {
            selected_text,
            selection_signature: capture.selection_signature,
            source_app: capture.source_app,
            window_title: capture.window_title,
            cursor: capture.cursor,
            selection_method: capture.selection_method,
        },
    )
}

/// What a full capture reports: the readings with the selection trimmed.
pub fn capture_context(capture: CaptureEnvelope) -> (r: Option<SelectionContext>)
    ensures
        r matches Some(c) && {
            &&& c.selected_text@ == trim(capture.selected_text@)
            &&& c.selection_signature@ == capture.selection_signature@
            &&& c.source_app@ == capture.source_app@
            &&& c.window_title@ == capture.window_title@
            &&& c.cursor == capture.cursor
            &&& c.window_rect == capture.window_rect
            &&& c.selection_method@ == capture.selection_method@
            &&& c.window_text@ == capture.window_text@
            &&& c.screenshot_base64@ == capture.screenshot_base64@
            &&& c.screenshot_mime@ == capture.screenshot_mime@
        },
{
    let selected_text = crate::text::trim_str(capture.selected_text.as_str());
    Some(
        SelectionContext {
            selected_text,
            selection_signature: capture.selection_signature,
            source_app: capture.source_app,
            window_title: capture.window_title,
            cursor: capture.cursor,
            window_rect: capture.window_rect,
            selection_method: capture.selection_method,
            window_text: capture.window_text,
            screenshot_base64: capture.screenshot_base64,
            screenshot_mime: capture.screenshot_mime,
        },
    )
}

/// The byte at `i` of `p` once every complete four-byte pixel has its first and third bytes
/// swapped (BGRA to RGBA).
pub open spec fn rgba_byte(p: Seq<u8>, i: int) -> u8 {
    let full = p.len() - p.len() % 4;
    if i < full && i % 4 == 0 {
        p[i + 2]
    } else if i < full && i % 4 == 2 {
        p[i - 2]
    } else {
        p[i]
    }
}

/// Turns BGRA pixels, as GDI gives them, into RGBA pixels; bytes after the last complete
/// pixel stay as they are.
pub fn bgra_to_rgba(pixels: &mut Vec<u8>)
    ensures
        final(pixels)@.len() == old(pixels)@.len(),
        forall|i: int| 0 <= i < old(pixels)@.len() ==> final(pixels)@[i] == rgba_byte(old(pixels)@, i),
{
    let n = pixels.len();
    let full = n - n % 4;
    let mut i: usize = 0;
    while i < full
        invariant
            n == pixels@.len() == old(pixels)@.len(),
            full == n - n % 4,
            i <= full,
            i % 4 == 0,
            forall|j: int| 0 <= j < i ==> pixels@[j] == rgba_byte(old(pixels)@, j),
            forall|j: int| i <= j < n ==> pixels@[j] == old(pixels)@[j],
        decreases full - i,
    {
        let a = pixels[i];
        let c = pixels[i + 2];
        pixels.set(i, c);
        pixels.set(i + 2, a);
        proof {
            assert forall|j: int| 0 <= j < i + 4 implies pixels@[j] == rgba_byte(old(pixels)@, j) by {
                if j >= i {
                    assert(j - i < 4);
                    assert(j % 4 == (j - i) % 4) by (nonlinear_arith)
                        requires
                            i % 4 == 0,
                            i <= j,
                    ;
                }
            }
        }
        i = i + 4;
    }
    proof {
        assert forall|j: int| 0 <= j < n implies pixels@[j] == rgba_byte(old(pixels)@, j) by {
            if j >= full {
            }
        }
    }
}

/// The PNG file of RGBA pixels, where the encoder accepts them.
pub uninterp spec fn png_rgba8(pixels: Seq<u8>, width: u32, height: u32) -> Option<Seq<u8>>;

/// Encodes RGBA pixels with `image::codecs::png::PngEncoder::write_image`; the result is
/// `png_rgba8` of its arguments, nothing more is claimed of the PNG bytes. The encoder panics
/// when the buffer is not `width * height * 4` bytes; `requires` leaves that out.
#[verifier::external_body]
fn encode_png_rgba8(pixels: &[u8], width: u32, height: u32) -> (r: Option<Vec<u8>>)
    requires
        pixels@.len() == width as int * height as int * 4,
    ensures
        match r {
            Some(b) => png_rgba8(pixels@, width, height) == Some(b@),
            None => png_rgba8(pixels@, width, height) is None,
        },
{
    let mut encoded: Vec<u8> = Vec::new();
    match image::ImageEncoder::write_image(
        image::codecs::png::PngEncoder::new(&mut encoded),
        pixels,
        width,
        height,
        image::ExtendedColorType::Rgba8,
    ) {
        Ok(()) => Some(encoded),
        Err(_) => None,
    }
}

/// Turns a window's BGRA pixels into a PNG file.
pub fn bitmap_pixels_to_png(bgra: Vec<u8>, width: u32, height: u32) -> (r: Result<Vec<u8>, String>)
    requires
        bgra@.len() == width as int * height as int * 4,
    ensures
        ({
            let rgba = Seq::new(bgra@.len(), |i: int| rgba_byte(bgra@, i));
            match r {
                Ok(b) => png_rgba8(rgba, width, height) == Some(b@),
                Err(e) => png_rgba8(rgba, width, height) is None
                    && e@ == "failed to encode screenshot png"@,
            }
        }),
{
    let mut pixels = bgra;
    bgra_to_rgba(&mut pixels);
    assert(pixels@ =~= Seq::new(bgra@.len(), |i: int| rgba_byte(bgra@, i)));
    match encode_png_rgba8(pixels.as_slice(), width, height) {
        Some(b) => Ok(b),
        None => Err(String::from_str("failed to encode screenshot png")),
    }
}

} // verus!
