use vstd::prelude::*;
use vstd::string::StringExecFns;
use vstd::utf8::encode_utf8;

use crate::decimal::{decimal_text, nat_digits, push_decimal, push_digits};
use crate::text::{
    chars_of, extract_query_param, push_str, query_param, string_from_chars, url_encoded, urlencod,
};

verus! {

/// Google's consent page for a client and a local redirect address.
pub open spec fn auth_url_text(client_id: Seq<char>, redirect_uri: Seq<char>) -> Seq<char> {
    "https://accounts.google.com/o/oauth2/v2/auth?client_id="@ + url_encoded(client_id)
        + "&redirect_uri="@ + url_encoded(redirect_uri)
        + "&response_type=code&scope=email%20profile%20openid&access_type=offline&prompt=consent"@
}

/// The Google OAuth consent URL for `client_id`, redirecting to `redirect_uri`.
pub fn google_auth_url(client_id: &str, redirect_uri: &str) -> (r: String)
    ensures
        r@ == auth_url_text(client_id@, redirect_uri@),
{
    let mut out: Vec<char> = Vec::new();
    push_str(&mut out, "https://accounts.google.com/o/oauth2/v2/auth?client_id=");
    let cid = urlencod(client_id);
    push_str(&mut out, cid.as_str());
    push_str(&mut out, "&redirect_uri=");
    let ru = urlencod(redirect_uri);
    push_str(&mut out, ru.as_str());
    push_str(
        &mut out,
        "&response_type=code&scope=email%20profile%20openid&access_type=offline&prompt=consent",
    );
    assert(out@ =~= auth_url_text(client_id@, redirect_uri@));
    string_from_chars(&out)
}

/// The local address the browser is sent back to.
pub fn redirect_uri(port: u16) -> (r: String)
    ensures
        r@ == "http://127.0.0.1:"@ + decimal_text(port as int),
{
    let mut out: Vec<char> = Vec::new();
    push_str(&mut out, "http://127.0.0.1:");
    push_decimal(port as i64, &mut out);
    string_from_chars(&out)
}

/// Whether `char::is_whitespace` holds: the Unicode `White_Space` characters.
pub open spec fn is_whitespace(c: char) -> bool {
    ||| '\t' <= c && c <= '\r'
    ||| c == ' '
    ||| c == '\u{85}'
    ||| c == '\u{A0}'
    ||| c == '\u{1680}'
    ||| '\u{2000}' <= c && c <= '\u{200A}'
    ||| c == '\u{2028}'
    ||| c == '\u{2029}'
    ||| c == '\u{202F}'
    ||| c == '\u{205F}'
    ||| c == '\u{3000}'
}

fn is_ws(c: char) -> (r: bool)
    ensures
        r == is_whitespace(c),
{
    ('\t' <= c && c <= '\r') || c == ' ' || c == '\u{85}' || c == '\u{A0}' || c == '\u{1680}' || (
    '\u{2000}' <= c && c <= '\u{200A}') || c == '\u{2028}' || c == '\u{2029}' || c == '\u{202F}'
        || c == '\u{205F}' || c == '\u{3000}'
}

/// How many leading characters of `s` are whitespace (`ws`) or not (`!ws`).
pub open spec fn leading_count(s: Seq<char>, ws: bool) -> nat
    decreases s.len(),
{
    if s.len() == 0 {
        0
    } else if is_whitespace(s[0]) == ws {
        1 + leading_count(s.skip(1), ws)
    } else {
        0
    }
}

/// `s` without its leading whitespace (`ws`) or leading word (`!ws`).
pub open spec fn skip_class(s: Seq<char>, ws: bool) -> Seq<char> {
    s.skip(leading_count(s, ws) as int)
}

/// The second whitespace-separated word of `s`, empty when there is none
/// (`split_whitespace().nth(1).unwrap_or("")`).
pub open spec fn second_word(s: Seq<char>) -> Seq<char> {
    let a = skip_class(skip_class(skip_class(s, true), false), true);
    a.take(leading_count(a, false) as int)
}

/// The first line of `s` (`lines().next().unwrap_or("")`): up to the first
/// line feed, without a carriage return just before it.
pub open spec fn first_line(s: Seq<char>) -> Seq<char> {
    let j = crate::text::find_char(s, '\n');
    if j < s.len() {
        let l = s.take(j as int);
        if l.len() > 0 && l.last() == '\r' {
            l.drop_last()
        } else {
            l
        }
    } else {
        s
    }
}

/// The path an HTTP request asks for: the second word of its request line.
pub open spec fn request_path(request: Seq<char>) -> Seq<char> {
    second_word(first_line(request))
}

proof fn lemma_leading_count_is(s: Seq<char>, ws: bool, i: int)
    requires
        0 <= i <= s.len(),
        forall|k: int| 0 <= k < i ==> is_whitespace(#[trigger] s[k]) == ws,
        i == s.len() || is_whitespace(s[i]) != ws,
    ensures
        leading_count(s, ws) == i,
    decreases i,
{
    if i > 0 {
        assert(is_whitespace(s[0]) == ws);
        let t = s.skip(1);
        assert forall|k: int| 0 <= k < i - 1 implies is_whitespace(#[trigger] t[k]) == ws by {
            assert(t[k] == s[k + 1]);
        }
        if i < s.len() {
            assert(t[i - 1] == s[i]);
        }
        lemma_leading_count_is(t, ws, i - 1);
    }
}

/// The end of the run of whitespace (`ws`) or non-whitespace (`!ws`) that starts at `from`.
fn skip_run(v: &Vec<char>, from: usize, to: usize, ws: bool) -> (r: usize)
    requires
        from <= to <= v.len(),
    ensures
        from <= r <= to,
        r == from + leading_count(v@.subrange(from as int, to as int), ws),
{
    let mut i: usize = from;
    while i < to && is_ws(v[i]) == ws
        invariant
            from <= i <= to <= v.len(),
            forall|k: int| from <= k < i ==> is_whitespace(#[trigger] v@[k]) == ws,
        decreases to - i,
    {
        i = i + 1;
    }
    proof {
        let s = v@.subrange(from as int, to as int);
        assert forall|k: int| 0 <= k < i - from implies is_whitespace(#[trigger] s[k]) == ws by {
            assert(s[k] == v@[from + k]);
        }
        lemma_leading_count_is(s, ws, i - from);
    }
    i
}

/// Where the first line of `v` ends.
fn first_line_end(v: &Vec<char>) -> (end: usize)
    ensures
        end <= v.len(),
        v@.subrange(0, end as int) == first_line(v@),
{
    let len = v.len();
    let nl = crate::text::find_in(v, '\n', 0, len);
    proof {
        assert(v@.subrange(0, len as int) =~= v@);
    }
    let end: usize = if nl < len {
        if nl > 0 && v[nl - 1] == '\r' {
            nl - 1
        } else {
            nl
        }
    } else {
        len
    };
    proof {
        if nl < len {
            let l = v@.take(nl as int);
            if nl > 0 && v@[nl - 1] == '\r' {
                assert(l.drop_last() =~= v@.subrange(0, end as int));
            } else {
                assert(l =~= v@.subrange(0, end as int));
            }
        } else {
            assert(v@ =~= v@.subrange(0, end as int));
        }
    }
    end
}

/// Where the second word of `v[0..end]` lies.
#[verifier::rlimit(30)]
fn second_word_range(v: &Vec<char>, end: usize) -> (r: (usize, usize))
    requires
        end <= v.len(),
    ensures
        r.0 <= r.1 <= end,
        v@.subrange(r.0 as int, r.1 as int) == second_word(v@.subrange(0, end as int)),
{
    let a = skip_run(v, 0, end, true);
    let b = skip_run(v, a, end, false);
    let c = skip_run(v, b, end, true);
    let d = skip_run(v, c, end, false);
    proof {
        let s0 = v@.subrange(0, end as int);
        let s1 = skip_class(s0, true);
        assert(s1 =~= v@.subrange(a as int, end as int));
        let s2 = skip_class(s1, false);
        assert(s2 =~= v@.subrange(b as int, end as int));
        let s3 = skip_class(s2, true);
        assert(s3 =~= v@.subrange(c as int, end as int));
        assert(s3.take(leading_count(s3, false) as int) =~= v@.subrange(c as int, d as int));
    }
    (c, d)
}

/// The path of an HTTP request (see `request_path`).
pub fn callback_path(request: &str) -> (r: String)
    ensures
        r@ == request_path(request@),
{
    let v = chars_of(request);
    let end = first_line_end(&v);
    let (c, d) = second_word_range(&v, end);
    let mut out: Vec<char> = Vec::new();
    let mut i: usize = c;
    while i < d
        invariant
            c <= i <= d <= v.len(),
            out@ == v@.subrange(c as int, i as int),
        decreases d - i,
    {
        out.push(v[i]);
        i = i + 1;
        assert(out@ =~= v@.subrange(c as int, i as int));
    }
    string_from_chars(&out)
}

/// What the OAuth redirect brought back.
#[derive(Clone, Debug, PartialEq, Eq)]
pub enum CallbackOutcome {
    /// The user or Google refused: the `error` parameter.
    Denied(String),
    /// The authorization code.
    Code(String),
    /// Neither an error nor a code.
    NoCode,
}


/// Reads the OAuth redirect request the local server received.
pub fn read_callback(request: &str) -> (r: CallbackOutcome)
    ensures
        match query_param(request_path(request@), "error"@) {
            Some(e) => r matches CallbackOutcome::Denied(s) && s@ == e,
            None => match query_param(request_path(request@), "code"@) {
                Some(c) => r matches CallbackOutcome::Code(s) && s@ == c,
                None => r is NoCode,
            },
        },
{
    let path = callback_path(request);
    match extract_query_param(path.as_str(), "error") {
        Some(e) => CallbackOutcome::Denied(e),
        None => match extract_query_param(path.as_str(), "code") {
            Some(c) => CallbackOutcome::Code(c),
            None => CallbackOutcome::NoCode,
        },
    }
}

impl CallbackOutcome {
    /// The authorization code, or the error the sign-in ends with.
    pub fn into_result(self) -> (r: Result<String, String>)
        ensures
            match self {
                CallbackOutcome::Denied(e) => r matches Err(m) && m@ == "OAuth error: "@ + e@,
                CallbackOutcome::Code(c) => r == Ok::<String, String>(c),
                CallbackOutcome::NoCode => r matches Err(m) && m@
                    == "No authorization code in callback"@,
            },
    {
        match self {
            CallbackOutcome::Denied(e) => {
                let mut m = String::from_str("OAuth error: ");
                m.append(e.as_str());
                Err(m)
            },
            CallbackOutcome::Code(c) => Ok(c),
            CallbackOutcome::NoCode => Err(String::from_str("No authorization code in callback")),
        }
    }
}

/// The page shown when the sign-in was refused, up to the error.
pub const FAILURE_PAGE_HEAD: &'static str = "<html><body style='font-family:sans-serif;text-align:center;padding:60px'><h2 style='color:#dc2626'>Authentication Failed</h2><p>Error: ";

/// The page shown when the sign-in was refused, after the error.
pub const FAILURE_PAGE_TAIL: &'static str = "</p><p style='color:#666'>You can close this tab.</p></body></html>";

/// The page shown when the authorization code arrived.
pub const SUCCESS_PAGE: &'static str = "<html><body style='font-family:sans-serif;text-align:center;padding:60px'><h2 style='color:#7c3aed'>Authentication Successful</h2><p style='color:#666'>You can close this tab and return to the app.</p><script>setTimeout(()=>window.close(),2000)</script></body></html>";

/// The response headers up to the content length.
pub const PAGE_HEADER_HEAD: &'static str = "HTTP/1.1 200 OK\r\nContent-Type: text/html\r\nContent-Length: ";

/// The response headers after the content length, with the blank line.
pub const PAGE_HEADER_TAIL: &'static str = "\r\nConnection: close\r\n\r\n";

/// The byte length of `body` in UTF-8, as a `usize` (what `str::len` gives).
pub open spec fn body_len(body: Seq<char>) -> usize {
    encode_utf8(body).len() as usize
}

/// A `200 OK` HTML response carrying `body`, with its byte length as the
/// content length.
pub open spec fn http_page(body: Seq<char>) -> Seq<char> {
    PAGE_HEADER_HEAD@ + nat_digits(body_len(body) as nat) + PAGE_HEADER_TAIL@ + body
}

/// The page body naming the error of a refused sign-in.
pub open spec fn failure_body(error: Seq<char>) -> Seq<char> {
    FAILURE_PAGE_HEAD@ + error + FAILURE_PAGE_TAIL@
}

/// A body shorter than `usize::MAX` bytes (any that a `String` holds) is
/// announced with its exact byte length.
pub proof fn lemma_page_length(body: Seq<char>)
    requires
        encode_utf8(body).len() <= usize::MAX,
    ensures
        http_page(body) == PAGE_HEADER_HEAD@ + nat_digits(encode_utf8(body).len())
            + PAGE_HEADER_TAIL@ + body,
{
}

/// Wraps `body` in a `200 OK` HTML response.
fn page_for(body: Vec<char>) -> (r: String)
    ensures
        r@ == http_page(body@),
{
    let text = string_from_chars(&body);
    let n: usize = text.as_str().len();
    let mut out: Vec<char> = Vec::new();
    push_str(&mut out, PAGE_HEADER_HEAD);
    push_digits(n as u64, &mut out);
    push_str(&mut out, PAGE_HEADER_TAIL);
    let ghost before = out@;
    let mut i: usize = 0;
    while i < body.len()
        invariant
            i <= body.len(),
            out@ == before + body@.take(i as int),
        decreases body.len() - i,
    {
        out.push(body[i]);
        i = i + 1;
        assert(out@ =~= before + body@.take(i as int));
    }
    assert(body@.take(body.len() as int) =~= body@);
    string_from_chars(&out)
}

/// The page the local server answers the browser with: a failure page naming
/// the error when the sign-in was refused, a success page when the code
/// arrived, and nothing when neither came.
pub fn callback_page(outcome: &CallbackOutcome) -> (r: Option<String>)
    ensures
        match *outcome {
            CallbackOutcome::Denied(e) => r matches Some(p) && p@ == http_page(failure_body(e@)),
            CallbackOutcome::Code(_) => r matches Some(p) && p@ == http_page(SUCCESS_PAGE@),
            CallbackOutcome::NoCode => r is None,
        },
{
    match outcome {
        CallbackOutcome::Denied(e) => {
            let mut body: Vec<char> = Vec::new();
            push_str(&mut body, FAILURE_PAGE_HEAD);
            push_str(&mut body, e.as_str());
            push_str(&mut body, FAILURE_PAGE_TAIL);
            Some(page_for(body))
        },
        CallbackOutcome::Code(_) => Some(page_for(chars_of(SUCCESS_PAGE))),
        CallbackOutcome::NoCode => None,
    }
}

} // verus!
