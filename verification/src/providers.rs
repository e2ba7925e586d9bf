//! Requests to an OpenAI-compatible chat completions endpoint: what is sent, and how a
//! refused request is reported.
use vstd::prelude::*;
use crate::text::{chars_of, decimal, push_decimal, push_range, push_str, string_of};

verus! {

/// A text-only chat request.
pub struct TextRequest {
    pub model: String,
    pub system: String,
    pub user: String,
}

/// A chat request with one image.
pub struct VisionRequest {
    pub model: String,
    pub system: String,
    pub user_text: String,
    /// PNG/JPEG bytes, base64 encoded
    pub image_base64: String,
    pub image_mime: String,
}

/// The text that the provider answered, and how long the request took.
pub struct ProviderResponse {
    pub content: String,
    pub latency_ms: u64,
}

/// The endpoint and credentials of an OpenAI-compatible provider.
pub struct OpenAiClient {
    pub base_url: String,
    pub api_key: String,
}

/// `s` without the trailing characters `c` (`str::trim_end_matches` with a char).
pub open spec fn trim_end_char(s: Seq<char>, c: char) -> Seq<char>
    decreases s.len(),
{
    if s.len() > 0 && s.last() == c {
        trim_end_char(s.drop_last(), c)
    } else {
        s
    }
}

/// The chat completions URL under a base URL.
pub open spec fn completions_url(base_url: Seq<char>) -> Seq<char> {
    trim_end_char(base_url, '/') + "/chat/completions"@
}

proof fn lemma_trim_end_char(s: Seq<char>, c: char)
    ensures
        trim_end_char(s, c).is_prefix_of(s),
        trim_end_char(s, c).len() > 0 ==> trim_end_char(s, c).last() != c,
        forall|k: int| trim_end_char(s, c).len() <= k < s.len() ==> #[trigger] s[k] == c,
    decreases s.len(),
{
    if s.len() > 0 && s.last() == c {
        lemma_trim_end_char(s.drop_last(), c);
        let t = trim_end_char(s, c);
        assert forall|k: int| t.len() <= k < s.len() implies #[trigger] s[k] == c by {
            if k < s.len() - 1 {
                assert(s[k] == s.drop_last()[k]);
            }
        }
        assert forall|k: int| 0 <= k < t.len() implies t[k] == s[k] by {
            assert(t[k] == s.drop_last()[k]);
        }
    }
}

/// The completions URL is the base URL with all its trailing slashes taken off, followed by
/// `/chat/completions`: what comes before that suffix is a prefix of the base URL that does
/// not end in `/`, and everything of the base URL after it is `/`.
pub proof fn completions_url_drops_trailing_slashes(base_url: Seq<char>)
    ensures
        ({
            let u = completions_url(base_url);
            let p = u.take(u.len() - 17);
            &&& u.len() >= 17
            &&& u.skip(u.len() - 17) =~= seq!['/', 'c', 'h', 'a', 't', '/', 'c', 'o', 'm', 'p', 'l', 'e', 't', 'i', 'o', 'n', 's']
            &&& p.is_prefix_of(base_url)
            &&& (p.len() > 0 ==> p.last() != '/')
            &&& forall|k: int| p.len() <= k < base_url.len() ==> #[trigger] base_url[k] == '/'
        }),
{
    reveal_strlit("/chat/completions");
    lemma_trim_end_char(base_url, '/');
    let t = trim_end_char(base_url, '/');
    let u = completions_url(base_url);
    assert(u.take(u.len() - 17) =~= t);
}

/// The string that a JSON text holds at `outer.inner`, where the text parses as JSON and
/// holds a string there.
pub uninterp spec fn json_string_at(raw: Seq<char>, outer: Seq<char>, inner: Seq<char>) -> Option<Seq<char>>;

/// Reads the string at `outer.inner` out of a JSON text with `serde_json::from_str::<Value>`,
/// indexing and `as_str`. Claims only that the result is `json_string_at` of the text and the
/// keys: what a parse gives is not written out here.
#[verifier::external_body]
fn json_string_field(raw: &str, outer: &str, inner: &str) -> (r: Option<String>)
    ensures
        match r {
            Some(m) => json_string_at(raw@, outer@, inner@) == Some(m@),
            None => json_string_at(raw@, outer@, inner@) is None,
        },
{
    serde_json::from_str::<serde_json::Value>(raw).ok().and_then(|v| v[outer][inner].as_str().map(String::from))
}

/// The message of an OpenAI-style error body: the string at `error.message`.
pub open spec fn json_error_message(raw: Seq<char>) -> Option<Seq<char>> {
    json_string_at(raw, "error"@, "message"@)
}

/// The message that a refused request reports: the body's `error.message`, or else the
/// status and the raw body.
pub open spec fn refusal_message(status: u16, raw: Seq<char>) -> Seq<char> {
    match json_error_message(raw) {
        Some(m) => m,
        None => "HTTP "@ + decimal(status as nat) + ": "@ + raw,
    }
}

/// The error message for a response whose status is not a success.
pub fn provider_error_message(status: u16, raw: &str) -> (r: String)
    ensures
        r@ == refusal_message(status, raw@),
{
    match json_string_field(raw, "error", "message") {
        Some(m) => m,
        None => {
            let mut v: Vec<char> = Vec::new();
            push_str(&mut v, "HTTP ");
            push_decimal(&mut v, status as u64);
            push_str(&mut v, ": ");
            push_str(&mut v, raw);
            string_of(&v)
        },
    }
}

/// The answer of a chat reply, given the contents of its choices in order: the first
/// choice's content, or empty text when the reply has no choice.
pub fn first_choice_content(contents: Vec<String>) -> (r: String)
    ensures
        r@ == if contents@.len() > 0 {
            contents@[0]@
        } else {
            Seq::<char>::empty()
        },
{
    let mut contents = contents;
    if contents.len() > 0 {
        contents.swap_remove(0)
    } else {
        String::new()
    }
}

/// The `data:` URL that carries an image inside a vision request.
pub open spec fn image_data_url(mime: Seq<char>, base64: Seq<char>) -> Seq<char> {
    "data:"@ + mime + ";base64,"@ + base64
}

impl OpenAiClient {
    /// A client for the provider at `base_url` that authenticates with `api_key`.
    pub fn new(base_url: &str, api_key: &str) -> (r: OpenAiClient)
        ensures
            r.base_url@ == base_url@,
            r.api_key@ == api_key@,
    {
        OpenAiClient { base_url: String::from_str(base_url), api_key: String::from_str(api_key) }
    }

    /// Where chat requests go: the base URL without trailing slashes, then `/chat/completions`.
    pub fn chat_completions_url(&self) -> (r: String)
        ensures
            r@ == completions_url(self.base_url@),
    {
        let v = chars_of(self.base_url.as_str());
        let mut n = v.len();
        assert(v@.subrange(0, n as int) =~= v@);
        while n > 0 && v[n - 1] == '/'
            invariant
                n <= v@.len(),
                trim_end_char(v@, '/') == trim_end_char(v@.subrange(0, n as int), '/'),
            decreases n,
        {
            proof {
                let t = v@.subrange(0, n as int);
                assert(t.drop_last() == v@.subrange(0, n - 1));
            }
            n = n - 1;
        }
        let mut out: Vec<char> = Vec::new();
        push_range(&mut out, &v, 0, n);
        push_str(&mut out, "/chat/completions");
        proof {
            let t = v@.subrange(0, n as int);
            assert(trim_end_char(t, '/') == t);
            assert(v@.subrange(0, v@.len() as int) =~= v@);
        }
        string_of(&out)
    }

    /// The `data:` URL for an image of a vision request.
    pub fn vision_image_url(req: &VisionRequest) -> (r: String)
        ensures
            r@ == image_data_url(req.image_mime@, req.image_base64@),
    {
        let mut v: Vec<char> = Vec::new();
        push_str(&mut v, "data:");
        push_str(&mut v, req.image_mime.as_str());
        push_str(&mut v, ";base64,");
        push_str(&mut v, req.image_base64.as_str());
        string_of(&v)
    }
}

} // verus!
