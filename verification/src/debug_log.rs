//! Local debug logs: what a log line says, where it goes, and what is hidden in it.
//!
//! The logger itself only decides: each call returns the lines to append and the files to
//! append them to, and the caller does the writing.
use vstd::prelude::*;
use crate::text::{chars_of, is_whitespace, is_ws, push_range, push_str, string_of, trim, trim_chars};

verus! {

/// A character that ends a secret token in a log line.
pub open spec fn is_token_stop(c: char) -> bool {
    is_ws(c) || c == '"' || c == '\'' || c == ',' || c == ')'
}

/// The length of the secret token that starts `s`.
pub open spec fn token_len(s: Seq<char>) -> nat
    decreases s.len(),
{
    if s.len() > 0 && !is_token_stop(s[0]) {
        1 + token_len(s.drop_first())
    } else {
        0
    }
}

/// What a hidden token is replaced by.
pub open spec fn redacted() -> Seq<char> {
    "[redacted]"@
}

/// The text that introduces a bearer token.
pub open spec fn bearer() -> Seq<char> {
    seq!['B', 'e', 'a', 'r', 'e', 'r', ' ']
}

/// The prefix of secret API keys.
pub open spec fn secret_key_prefix() -> Seq<char> {
    seq!['s', 'k', '-']
}


proof fn lemma_token_len_bound(s: Seq<char>)
    ensures
        token_len(s) <= s.len(),
        forall|k: int| 0 <= k < token_len(s) ==> !is_token_stop(#[trigger] s[k]),
        token_len(s) < s.len() ==> is_token_stop(s[token_len(s) as int]),
    decreases s.len(),
{
    if s.len() > 0 && !is_token_stop(s[0]) {
        let t = s.drop_first();
        lemma_token_len_bound(t);
        assert forall|k: int| 0 <= k < token_len(s) implies !is_token_stop(#[trigger] s[k]) by {
            if k > 0 {
                assert(s[k] == t[k - 1]);
            }
        }
        if token_len(s) < s.len() {
            assert(s[token_len(s) as int] == t[token_len(t) as int]);
        }
    }
}

/// `s` with every token after `Bearer ` replaced by `[redacted]`.
pub open spec fn redact_bearer(s: Seq<char>) -> Seq<char>
    decreases s.len(),
{
    match crate::text::find(s, bearer()) {
        None => s,
        Some(i) => {
            let p = i + 7;
            if 0 <= i && p <= s.len() {
                let rest = s.skip(p);
                let t = token_len(rest);
                if t <= rest.len() {
                    s.take(p) + (if t > 0 {
                        redacted()
                    } else {
                        Seq::empty()
                    }) + redact_bearer(rest.skip(t as int))
                } else {
                    s
                }
            } else {
                s
            }
        },
    }
}

/// `s` with every occurrence of `prefix` followed by `[redacted]` in place of the token after it.
pub open spec fn redact_prefixed(s: Seq<char>, prefix: Seq<char>) -> Seq<char>
    decreases s.len(),
{
    match crate::text::find(s, prefix) {
        None => s,
        Some(i) => {
            let p = i + prefix.len();
            if 0 <= i && p <= s.len() && prefix.len() > 0 {
                let rest = s.skip(p);
                let t = token_len(rest);
                if t <= rest.len() {
                    s.take(i) + prefix + redacted() + redact_prefixed(rest.skip(t as int), prefix)
                } else {
                    s
                }
            } else {
                s
            }
        },
    }
}

/// `s` with bearer tokens and secret keys hidden.
pub open spec fn redact_sensitive(s: Seq<char>) -> Seq<char> {
    redact_prefixed(redact_bearer(s), secret_key_prefix())
}

/// `s` with each line break (`\r\n`, `\n` or `\r`) made a single space.
pub open spec fn flatten_line_breaks(s: Seq<char>) -> Seq<char>
    decreases s.len(),
{
    if s.len() == 0 {
        s
    } else if s.len() >= 2 && s[0] == '\r' && s[1] == '\n' {
        seq![' '] + flatten_line_breaks(s.skip(2))
    } else if s[0] == '\n' || s[0] == '\r' {
        seq![' '] + flatten_line_breaks(s.drop_first())
    } else {
        seq![s[0]] + flatten_line_breaks(s.drop_first())
    }
}

/// `s` with each line break written out: `\r\n` and `\n` as `\n`, a lone `\r` as `\r`.
pub open spec fn escape_line_breaks(s: Seq<char>) -> Seq<char>
    decreases s.len(),
{
    if s.len() == 0 {
        s
    } else if s.len() >= 2 && s[0] == '\r' && s[1] == '\n' {
        seq!['\\', 'n'] + escape_line_breaks(s.skip(2))
    } else if s[0] == '\n' {
        seq!['\\', 'n'] + escape_line_breaks(s.drop_first())
    } else if s[0] == '\r' {
        seq!['\\', 'r'] + escape_line_breaks(s.drop_first())
    } else {
        seq![s[0]] + escape_line_breaks(s.drop_first())
    }
}

/// The suffix of a shortened log value.
pub open spec fn truncated_marker() -> Seq<char> {
    "...[truncated]"@
}

/// A value as it appears in a log line: on one line, trimmed, secrets hidden, and cut after
/// `max_chars` characters.
pub open spec fn log_value(value: Seq<char>, max_chars: nat) -> Seq<char> {
    let flat = redact_sensitive(trim(flatten_line_breaks(value)));
    if flat.len() <= max_chars {
        flat
    } else {
        flat.take(max_chars as int) + truncated_marker()
    }
}

fn token_end(s: &[char], from: usize) -> (r: usize)
    requires
        from <= s@.len(),
    ensures
        r == from + token_len(s@.skip(from as int)),
        r <= s@.len(),
{
    let mut k = from;
    proof {
        lemma_token_len_bound(s@.skip(from as int));
    }
    while k < s.len() && !(is_whitespace(s[k]) || s[k] == '"' || s[k] == '\'' || s[k] == ','
        || s[k] == ')')
        invariant
            from <= k <= s@.len(),
            forall|m: int| from <= m < k ==> !is_token_stop(#[trigger] s@[m]),
            token_len(s@.skip(from as int)) <= s@.len() - from,
            forall|m: int|
                0 <= m < token_len(s@.skip(from as int)) ==> !is_token_stop(
                    #[trigger] s@.skip(from as int)[m],
                ),
            token_len(s@.skip(from as int)) < s@.len() - from ==> is_token_stop(
                s@.skip(from as int)[token_len(s@.skip(from as int)) as int],
            ),
        decreases s@.len() - k,
    {
        k = k + 1;
    }
    proof {
        let t = token_len(s@.skip(from as int));
        if k - from < t {
            assert(s@.skip(from as int)[k - from] == s@[k as int]);
        }
        if t < k - from {
            assert(s@.skip(from as int)[t as int] == s@[from + t]);
        }
    }
    k
}

/// Hides the token after each `Bearer `.
pub fn redact_bearer_token(value: &[char]) -> (r: Vec<char>)
    ensures
        r@ == redact_bearer(value@),
{
    let pat = chars_of("Bearer ");
    proof {
        reveal_strlit("Bearer ");
        assert(pat@ =~= bearer());
    }
    let mut out: Vec<char> = Vec::new();
    let mut pos: usize = 0;
    let n = value.len();
    assert(value@.skip(0) =~= value@);
    loop
        invariant
            n == value@.len(),
            pos <= value@.len(),
            pat@ == bearer(),
            redact_bearer(value@) == out@ + redact_bearer(value@.skip(pos as int)),
        decreases value@.len() - pos,
    {
        let ghost rest0 = value@.skip(pos as int);
        match crate::text::find_in_rest(value, &pat, pos) {
            None => {
                push_range(&mut out, value, pos, value.len());
                assert(value@.subrange(pos as int, value@.len() as int) =~= rest0);
                return out;
            },
            Some(j) => {
                proof {
                    crate::text::lemma_find_matches(rest0, bearer());
                }
                let p = pos + j + 7;
                push_range(&mut out, value, pos, p);
                let e = token_end(value, p);
                proof {
                    crate::text::lemma_skip_skip(value@, pos as int, j + 7);
                    lemma_token_len_bound(value@.skip(p as int));
                    crate::text::lemma_skip_skip(value@, p as int, (e - p) as int);
                    assert(value@.subrange(pos as int, p as int) =~= rest0.take(j + 7));
                }
                if e > p {
                    push_str(&mut out, "[redacted]");
                }
                pos = e;
            },
        }
    }
}

/// Hides the token after each occurrence of `prefix`.
pub fn redact_prefixed_token(value: &[char], prefix: &str) -> (r: Vec<char>)
    requires
        prefix@.len() > 0,
    ensures
        r@ == redact_prefixed(value@, prefix@),
{
    let pat = chars_of(prefix);
    let mut out: Vec<char> = Vec::new();
    let mut pos: usize = 0;
    let n = value.len();
    assert(value@.skip(0) =~= value@);
    loop
        invariant
            n == value@.len(),
            pos <= value@.len(),
            pat@ == prefix@,
            prefix@.len() > 0,
            redact_prefixed(value@, prefix@) == out@ + redact_prefixed(
                value@.skip(pos as int),
                prefix@,
            ),
        decreases value@.len() - pos,
    {
        let ghost rest0 = value@.skip(pos as int);
        match crate::text::find_in_rest(value, &pat, pos) {
            None => {
                push_range(&mut out, value, pos, value.len());
                assert(value@.subrange(pos as int, value@.len() as int) =~= rest0);
                return out;
            },
            Some(j) => {
                proof {
                    crate::text::lemma_find_matches(rest0, prefix@);
                }
                let p = pos + j + pat.len();
                push_range(&mut out, value, pos, pos + j);
                push_str(&mut out, prefix);
                push_str(&mut out, "[redacted]");
                let e = token_end(value, p);
                proof {
                    crate::text::lemma_skip_skip(value@, pos as int, j + pat@.len());
                    lemma_token_len_bound(value@.skip(p as int));
                    crate::text::lemma_skip_skip(value@, p as int, (e - p) as int);
                    assert(value@.subrange(pos as int, pos + j) =~= rest0.take(j as int));
                }
                pos = e;
            },
        }
    }
}

/// Hides bearer tokens and secret keys.
pub fn redact_sensitive_tokens(value: &[char]) -> (r: Vec<char>)
    ensures
        r@ == redact_sensitive(value@),
{
    let b = redact_bearer_token(value);
    proof {
        reveal_strlit("sk-");
        assert("sk-"@ =~= secret_key_prefix());
    }
    redact_prefixed_token(&b, "sk-")
}

/// Puts a value on one line: each line break becomes a space.
pub fn flatten_newlines(value: &[char]) -> (r: Vec<char>)
    ensures
        r@ == flatten_line_breaks(value@),
{
    let mut out: Vec<char> = Vec::new();
    let mut i: usize = 0;
    let n = value.len();
    assert(value@.skip(0) =~= value@);
    while i < n
        invariant
            i <= n == value@.len(),
            flatten_line_breaks(value@) == out@ + flatten_line_breaks(value@.skip(i as int)),
        decreases n - i,
    {
        let ghost rest = value@.skip(i as int);
        let c = value[i];
        if c == '\r' && i + 1 < n && value[i + 1] == '\n' {
            out.push(' ');
            proof {
                assert(rest[0] == '\r' && rest[1] == '\n');
                assert(rest.skip(2) =~= value@.skip(i + 2));
                assert(seq![' '] + flatten_line_breaks(rest.skip(2)) == flatten_line_breaks(rest));
            }
            i = i + 2;
        } else if c == '\n' || c == '\r' {
            out.push(' ');
            proof {
                assert(rest[0] == c);
                assert(rest.drop_first() =~= value@.skip(i + 1));
            }
            i = i + 1;
        } else {
            out.push(c);
            proof {
                assert(rest[0] == c);
                assert(rest.drop_first() =~= value@.skip(i + 1));
            }
            i = i + 1;
        }
    }
    assert(value@.skip(n as int) =~= Seq::<char>::empty());
    out
}

/// Writes each line break out, so that a log entry stays on one line.
pub fn escape_newlines(value: &[char]) -> (r: Vec<char>)
    ensures
        r@ == escape_line_breaks(value@),
{
    let mut out: Vec<char> = Vec::new();
    let mut i: usize = 0;
    let n = value.len();
    assert(value@.skip(0) =~= value@);
    while i < n
        invariant
            i <= n == value@.len(),
            escape_line_breaks(value@) == out@ + escape_line_breaks(value@.skip(i as int)),
        decreases n - i,
    {
        let ghost rest = value@.skip(i as int);
        let c = value[i];
        if c == '\r' && i + 1 < n && value[i + 1] == '\n' {
            out.push('\\');
            out.push('n');
            proof {
                assert(rest[0] == '\r' && rest[1] == '\n');
                assert(rest.skip(2) =~= value@.skip(i + 2));
            }
            i = i + 2;
        } else if c == '\n' {
            out.push('\\');
            out.push('n');
            proof {
                assert(rest[0] == c);
                assert(rest.drop_first() =~= value@.skip(i + 1));
            }
            i = i + 1;
        } else if c == '\r' {
            out.push('\\');
            out.push('r');
            proof {
                assert(rest[0] == c);
                assert(rest.drop_first() =~= value@.skip(i + 1));
            }
            i = i + 1;
        } else {
            out.push(c);
            proof {
                assert(rest[0] == c);
                assert(rest.drop_first() =~= value@.skip(i + 1));
            }
            i = i + 1;
        }
    }
    assert(value@.skip(n as int) =~= Seq::<char>::empty());
    out
}

/// A value made safe for the HTTP log: line breaks written out, secrets hidden.
pub open spec fn http_value(value: Seq<char>) -> Seq<char> {
    redact_sensitive(escape_line_breaks(value))
}

/// Makes a multi-line value safe for the HTTP log.
pub fn sanitize_multiline(value: &str) -> (r: String)
    ensures
        r@ == http_value(value@),
{
    let v = chars_of(value);
    let e = escape_newlines(&v);
    let r = redact_sensitive_tokens(&e);
    string_of(&r)
}

/// Shortens a value for a log line: one line, trimmed, secrets hidden, at most `max_chars`
/// characters before the `...[truncated]` marker.
pub fn truncate_for_log(value: &str, max_chars: usize) -> (r: String)
    ensures
        r@ == log_value(value@, max_chars as nat),
{
    let v = chars_of(value);
    let flat = flatten_newlines(&v);
    let trimmed = trim_chars(&flat);
    let red = redact_sensitive_tokens(&trimmed);
    if red.len() <= max_chars {
        return string_of(&red);
    }
    let mut out: Vec<char> = Vec::new();
    push_range(&mut out, &red, 0, max_chars);
    push_str(&mut out, "...[truncated]");
    assert(red@.subrange(0, max_chars as int) == red@.take(max_chars as int));
    string_of(&out)
}

/// The text of a log line: time stamp, scope in brackets, message.
pub open spec fn log_line(timestamp: Seq<char>, scope: Seq<char>, message: Seq<char>) -> Seq<char> {
    timestamp + " ["@ + scope + "] "@ + message
}

/// The chrono format of log time stamps: date, time, and milliseconds.
pub const LOG_TIME_FORMAT: &'static str = "%Y-%m-%d %H:%M:%S%.3f";

/// Whether `c` is an ASCII digit.
pub open spec fn is_ascii_digit(c: char) -> bool {
    '0' <= c <= '9'
}

/// The number written by the two digits of `t` at `i` and `i + 1`.
pub open spec fn two_digit_value(t: Seq<char>, i: int) -> int {
    (t[i] as int - '0' as int) * 10 + (t[i + 1] as int - '0' as int)
}

/// Whether `t` holds, at `i`, two digits that write a number in `[lo, hi]`.
pub open spec fn two_digits_in(t: Seq<char>, i: int, lo: int, hi: int) -> bool {
    &&& is_ascii_digit(t[i])
    &&& is_ascii_digit(t[i + 1])
    &&& lo <= two_digit_value(t, i) <= hi
}

/// How chrono writes a year with `%Y`: four digits for the years 0 to 9999, otherwise a
/// sign followed by at least four digits.
pub open spec fn is_year_text(y: Seq<char>) -> bool {
    ||| y.len() == 4 && forall|k: int| 0 <= k < 4 ==> is_ascii_digit(#[trigger] y[k])
    ||| y.len() >= 5 && (y[0] == '+' || y[0] == '-') && forall|k: int|
        1 <= k < y.len() ==> is_ascii_digit(#[trigger] y[k])
}

/// Whether `t` is a time stamp written with `LOG_TIME_FORMAT`: the year, then
/// `-MM-DD HH:MM:SS.mmm` (a second of 60 is a leap second).
pub open spec fn is_log_timestamp(t: Seq<char>) -> bool {
    let n = t.len() as int;
    &&& n >= 23
    &&& is_year_text(t.take(n - 19))
    &&& t[n - 19] == '-'
    &&& two_digits_in(t, n - 18, 1, 12)
    &&& t[n - 16] == '-'
    &&& two_digits_in(t, n - 15, 1, 31)
    &&& t[n - 13] == ' '
    &&& two_digits_in(t, n - 12, 0, 23)
    &&& t[n - 10] == ':'
    &&& two_digits_in(t, n - 9, 0, 59)
    &&& t[n - 7] == ':'
    &&& two_digits_in(t, n - 6, 0, 60)
    &&& t[n - 4] == '.'
    &&& is_ascii_digit(t[n - 3])
    &&& is_ascii_digit(t[n - 2])
    &&& is_ascii_digit(t[n - 1])
}

/// The local time written with `format`, read with `chrono::Local::now` and written with
/// chrono's `format`. Claims only the shape that `LOG_TIME_FORMAT` gives (year, month 1 to 12,
/// day 1 to 31, hour, minute, second, milliseconds); which time it reads is the clock's.
#[verifier::external_body]
fn local_timestamp(format: &str) -> (ts: String)
    requires
        format@ == LOG_TIME_FORMAT@,
    ensures
        is_log_timestamp(ts@),
{
    chrono::Local::now().format(format).to_string()
}

/// A log line stamped with the current local time.
pub fn format_line(scope: &str, message: &str) -> (r: String)
    ensures
        exists|ts: Seq<char>| is_log_timestamp(ts) && r@ == #[trigger] log_line(ts, scope@, message@),
{
    let ts = local_timestamp(LOG_TIME_FORMAT);
    let mut v = chars_of(ts.as_str());
    push_str(&mut v, " [");
    push_str(&mut v, scope);
    push_str(&mut v, "] ");
    push_str(&mut v, message);
    let r = string_of(&v);
    assert(r@ == log_line(ts@, scope@, message@));
    r
}

/// A line to append to a log file.
pub struct LogWrite {
    pub path: String,
    pub line: String,
}

/// The three log files and whether logging is on.
pub struct DebugLogger {
    pub runtime_path: String,
    pub interaction_path: String,
    pub http_path: String,
    pub enabled: bool,
}

/// Whether `w` appends, to `path`, a line of `scope` with `message`, stamped with a time
/// written in `LOG_TIME_FORMAT`.
pub open spec fn writes_line(w: LogWrite, path: Seq<char>, scope: Seq<char>, message: Seq<char>) -> bool {
    &&& w.path@ == path
    &&& exists|ts: Seq<char>| is_log_timestamp(ts) && w.line@ == #[trigger] log_line(ts, scope, message)
}

/// Whether there is a logger and it is on.
pub open spec fn is_on(logger: Option<&DebugLogger>) -> bool {
    logger is Some && logger->0.enabled
}

impl DebugLogger {
    /// A logger over the three files, switched off.
    pub fn new(runtime_path: String, interaction_path: String, http_path: String) -> (r: DebugLogger)
        ensures
            r.runtime_path@ == runtime_path@,
            r.interaction_path@ == interaction_path@,
            r.http_path@ == http_path@,
            !r.enabled,
    {
        DebugLogger { runtime_path, interaction_path, http_path, enabled: false }
    }
}

/// The logger to keep at start-up: the existing one if there is one, else a new one over the
/// given files; and the runtime log path that start-up reports.
pub fn init(
    existing: Option<DebugLogger>,
    runtime_path: String,
    interaction_path: String,
    http_path: String,
) -> (r: (DebugLogger, String))
    ensures
        r.1@ == runtime_path@,
        match existing {
            Some(l) => r.0 == l,
            None => {
                &&& r.0.runtime_path@ == runtime_path@
                &&& r.0.interaction_path@ == interaction_path@
                &&& r.0.http_path@ == http_path@
                &&& !r.0.enabled
            },
        },
{
    let path = runtime_path.clone();
    match existing {
        Some(l) => (l, path),
        None => (DebugLogger::new(runtime_path, interaction_path, http_path), path),
    }
}

/// The message that records a switch of the logger.
pub open spec fn switch_message(enabled: bool) -> Seq<char> {
    if enabled {
        "debug logging enabled"@
    } else {
        "debug logging disabled"@
    }
}

/// Switches logging on or off and returns the line that records it, once for each file.
pub fn set_enabled(logger: &mut DebugLogger, enabled: bool) -> (writes: Vec<LogWrite>)
    ensures
        final(logger).enabled == enabled,
        final(logger).runtime_path@ == old(logger).runtime_path@,
        final(logger).interaction_path@ == old(logger).interaction_path@,
        final(logger).http_path@ == old(logger).http_path@,
        writes@.len() == 3,
        writes_line(writes@[0], old(logger).runtime_path@, "debug"@, switch_message(enabled)),
        writes_line(writes@[1], old(logger).interaction_path@, "debug"@, switch_message(enabled)),
        writes_line(writes@[2], old(logger).http_path@, "debug"@, switch_message(enabled)),
        writes@[0].line@ == writes@[1].line@ && writes@[1].line@ == writes@[2].line@,
{
    logger.enabled = enabled;
    let message = if enabled {
        "debug logging enabled"
    } else {
        "debug logging disabled"
    };
    let line = format_line("debug", message);
    let mut writes: Vec<LogWrite> = Vec::new();
    writes.push(LogWrite { path: logger.runtime_path.clone(), line: line.clone() });
    writes.push(LogWrite { path: logger.interaction_path.clone(), line: line.clone() });
    writes.push(LogWrite { path: logger.http_path.clone(), line });
    writes
}

/// The runtime log line for `message`, when logging is on.
pub fn log(logger: Option<&DebugLogger>, scope: &str, message: &str) -> (r: Option<LogWrite>)
    ensures
        r is Some <==> is_on(logger),
        r is Some ==> writes_line(r->0, logger->0.runtime_path@, scope@, message@),
{
    match logger {
        Some(l) => {
            if !l.enabled {
                return None;
            }
            Some(LogWrite { path: l.runtime_path.clone(), line: format_line(scope, message) })
        },
        None => None,
    }
}

/// The interaction log line for `message`, when logging is on.
pub fn trace(logger: Option<&DebugLogger>, scope: &str, message: &str) -> (r: Option<LogWrite>)
    ensures
        r is Some <==> is_on(logger),
        r is Some ==> writes_line(r->0, logger->0.interaction_path@, scope@, message@),
{
    match logger {
        Some(l) => {
            if !l.enabled {
                return None;
            }
            Some(LogWrite { path: l.interaction_path.clone(), line: format_line(scope, message) })
        },
        None => None,
    }
}

/// The HTTP log line for `message`, on one line and with secrets hidden, when logging is on.
pub fn http(logger: Option<&DebugLogger>, scope: &str, message: &str) -> (r: Option<LogWrite>)
    ensures
        r is Some <==> is_on(logger),
        r is Some ==> writes_line(r->0, logger->0.http_path@, scope@, http_value(message@)),
{
    match logger {
        Some(l) => {
            if !l.enabled {
                return None;
            }
            let safe = sanitize_multiline(message);
            Some(LogWrite { path: l.http_path.clone(), line: format_line(scope, safe.as_str()) })
        },
        None => None,
    }
}

/// The runtime log's path, when there is a logger.
pub fn current_log_path(logger: Option<&DebugLogger>) -> (r: Option<String>)
    ensures
        r is Some <==> logger is Some,
        r is Some ==> r->0@ == logger->0.runtime_path@,
{
    match logger {
        Some(l) => Some(l.runtime_path.clone()),
        None => None,
    }
}

/// The interaction log's path, when there is a logger.
pub fn current_interaction_log_path(logger: Option<&DebugLogger>) -> (r: Option<String>)
    ensures
        r is Some <==> logger is Some,
        r is Some ==> r->0@ == logger->0.interaction_path@,
{
    match logger {
        Some(l) => Some(l.interaction_path.clone()),
        None => None,
    }
}

/// The HTTP log's path, when there is a logger.
pub fn current_http_log_path(logger: Option<&DebugLogger>) -> (r: Option<String>)
    ensures
        r is Some <==> logger is Some,
        r is Some ==> r->0@ == logger->0.http_path@,
{
    match logger {
        Some(l) => Some(l.http_path.clone()),
        None => None,
    }
}

/// Whether every secret-key prefix in `s` is followed by `[redacted]`.
pub open spec fn secret_keys_hidden(s: Seq<char>) -> bool {
    forall|k: int|
        #[trigger] crate::text::matches_at(s, secret_key_prefix(), k) ==> crate::text::matches_at(
            s,
            secret_key_prefix() + redacted(),
            k,
        )
}

proof fn lemma_token_len_after_plain(a: Seq<char>, b: Seq<char>)
    requires
        forall|k: int| 0 <= k < a.len() ==> !is_token_stop(#[trigger] a[k]),
    ensures
        token_len(a + b) == a.len() + token_len(b),
    decreases a.len(),
{
    if a.len() > 0 {
        assert((a + b).drop_first() == a.drop_first() + b);
        assert(forall|k: int| 0 <= k < a.drop_first().len() ==> a.drop_first()[k] == a[k + 1]);
        lemma_token_len_after_plain(a.drop_first(), b);
    } else {
        assert(a + b == b);
    }
}

proof fn lemma_redacted_is_plain()
    ensures
        redacted().len() == 10,
        forall|k: int| 0 <= k < redacted().len() ==> !is_token_stop(#[trigger] redacted()[k]),
{
    reveal_strlit("[redacted]");
}

/// Redacting bearer tokens keeps the first character of a text that starts with a character
/// that ends tokens.
proof fn lemma_redact_bearer_keeps_stop_head(x: Seq<char>)
    requires
        x.len() > 0,
        is_token_stop(x[0]),
    ensures
        redact_bearer(x).len() > 0,
        redact_bearer(x)[0] == x[0],
{
    if let Some(i) = crate::text::find(x, bearer()) {
        crate::text::lemma_find_matches(x, bearer());
        assert(x.subrange(i, i + 7)[0] == bearer()[0]);
        assert(i != 0);
        lemma_token_len_bound(x.skip(i + 7));
    }
}

/// Redacting bearer tokens twice gives what redacting them once gives; a text without
/// `Bearer ` is left as it is.
pub proof fn bearer_redaction_is_stable(s: Seq<char>)
    ensures
        redact_bearer(redact_bearer(s)) == redact_bearer(s),
        (forall|k: int| !#[trigger] crate::text::matches_at(s, bearer(), k)) ==> redact_bearer(s) == s,
    decreases s.len(),
{
    match crate::text::find(s, bearer()) {
        None => {},
        Some(i) => {
            crate::text::lemma_find_matches(s, bearer());
            crate::text::lemma_find_from_first(s, bearer(), 0);
            let p = i + 7;
            let rest = s.skip(p);
            lemma_token_len_bound(rest);
            let t = token_len(rest);
            let x = rest.skip(t as int);
            bearer_redaction_is_stable(x);
            let r = redact_bearer(x);
            let mid = if t > 0 { redacted() } else { Seq::<char>::empty() };
            let out = s.take(p) + mid + r;
            assert(redact_bearer(s) == out);
            // The first `Bearer ` of `out` is the one at `i`.
            assert(out.take(p) =~= s.take(p));
            assert(crate::text::matches_at(out, bearer(), i)) by {
                assert(out.subrange(i, p) =~= s.subrange(i, p));
            }
            assert forall|k: int| 0 <= k < i implies !#[trigger] crate::text::matches_at(out, bearer(), k) by {
                if crate::text::matches_at(out, bearer(), k) {
                    assert(out.subrange(k, k + 7) =~= s.subrange(k, k + 7));
                    assert(crate::text::matches_at(s, bearer(), k));
                }
            }
            crate::text::lemma_find_from_at(out, bearer(), 0, i);
            // After it comes `mid`, then `r`, which starts with a character that ends tokens.
            assert(out.skip(p) =~= mid + r);
            assert(token_len(r) == 0) by {
                if x.len() > 0 {
                    assert(x[0] == rest[t as int]);
                    lemma_redact_bearer_keeps_stop_head(x);
                } else {
                    assert(crate::text::find(x, bearer()) is None);
                }
            }
            lemma_redacted_is_plain();
            lemma_token_len_after_plain(mid, r);
            assert((mid + r).skip(mid.len() as int) =~= r);
            assert(out =~= out.take(p) + mid + r);
        },
    }
}

/// After redaction, every secret key in a text reads `sk-[redacted]`: nothing of a key is left.
pub proof fn redaction_hides_secret_keys(s: Seq<char>)
    ensures
        secret_keys_hidden(redact_prefixed(s, secret_key_prefix())),
    decreases s.len(),
{
    let p = secret_key_prefix();
    reveal_strlit("[redacted]");
    let r = redacted();
    assert(r.len() == 10);
    crate::text::lemma_find_from_first(s, p, 0);
    match crate::text::find(s, p) {
        None => {
            let out = redact_prefixed(s, p);
            assert(out == s);
        },
        Some(i) => {
            crate::text::lemma_find_matches(s, p);
            let pe = i + 3;
            let rest = s.skip(pe);
            lemma_token_len_bound(rest);
            let t = token_len(rest);
            let rest2 = rest.skip(t as int);
            redaction_hides_secret_keys(rest2);
            let tail = redact_prefixed(rest2, p);
            let a = s.take(i);
            let out = redact_prefixed(s, p);
            assert(out == a + p + r + tail);
            let head = a + p + r;
            assert(head.len() == i + 13);
            assert forall|k: int| #[trigger] crate::text::matches_at(out, p, k) implies crate::text::matches_at(
                out,
                p + r,
                k,
            ) by {
                assert(out.subrange(k, k + 3) == p);
                assert(out[k] == 's');
                assert(out[k + 1] == 'k');
                assert(out[k + 2] == '-');
                if k + 3 <= i {
                    assert(s.subrange(k, k + 3) =~= out.subrange(k, k + 3));
                    assert(crate::text::matches_at(s, p, k));
                } else if k < i {
                    if k == i - 1 {
                        assert(out[k + 1] == out[i]);
                        assert(out[i] == 's');
                    } else {
                        assert(out[k + 2] == out[i]);
                    }
                } else if k == i {
                    assert(out.subrange(k, k + 13) =~= p + r);
                } else if k < i + 13 {
                    assert(out[k] == head[k]);
                    if k < i + 3 {
                        assert(head[k] == p[k - i]);
                    } else {
                        assert(head[k] == r[k - i - 3]);
                    }
                } else {
                    let j = k - (i + 13);
                    assert(tail.subrange(j, j + 3) =~= out.subrange(k, k + 3));
                    assert(crate::text::matches_at(tail, p, j));
                    assert(crate::text::matches_at(tail, p + r, j));
                    assert(out.subrange(k, k + 13) =~= tail.subrange(j, j + 13));
                }
            }
        },
    }
}

/// Texts for the HTTP log, and any text once redacted, show no secret key.
pub proof fn logged_texts_hide_secret_keys(value: Seq<char>)
    ensures
        secret_keys_hidden(redact_sensitive(value)),
        secret_keys_hidden(http_value(value)),
{
    redaction_hides_secret_keys(redact_bearer(value));
    redaction_hides_secret_keys(redact_bearer(escape_line_breaks(value)));
}

/// A log value is at most `max_chars` characters, plus the truncation marker.
pub proof fn log_values_are_bounded(value: Seq<char>, max_chars: nat)
    ensures
        log_value(value, max_chars).len() <= max_chars + 14,
{
    reveal_strlit("...[truncated]");
}

} // verus!
