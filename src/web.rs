//! The decisions of the HTTP front end: what the redirect endpoint answers,
//! which requests the metrics guard refuses, and how a request target is
//! hidden from the logs.
use vstd::prelude::*;
use vstd::utf8::{encode_utf8, encode_utf8_decode_utf8};

use crate::clean::{clean_with_rules, cleaned, display_text, handler_count, rules_for};
use crate::matcher::{occurs, occurs_in, same_bytes};
use crate::parsed_url::{opt_chars, parsed, percent_decode, percent_decoded_text, ParsedUrl};
use crate::rules::{rules_view, Rule};

verus! {

#[verifier::external_type_specification]
#[verifier::external_body]
pub struct ExAnyhowError(anyhow::Error);

/// An error of the HTTP front end.
#[derive(Debug)]
pub enum HttpError {
    InternalServerError(anyhow::Error),
    Forbidden,
}

impl HttpError {
    /// The HTTP status code of the error.
    pub fn status_code(&self) -> (r: u16)
        ensures
            r == (match self {
                HttpError::InternalServerError(_) => 500u16,
                HttpError::Forbidden => 403u16,
            }),
    {
        match self {
            HttpError::InternalServerError(_) => 500,
            HttpError::Forbidden => 403,
        }
    }
}

/// The path that only requests from inside may reach.
pub const METRICS_PATH: &'static str = "/metrics";

/// What a request tells of its origin.
#[derive(Debug)]
pub struct RequestDetails {
    /// The client address that the proxy in front reports, if any.
    pub ip_address: Option<String>,
}

impl RequestDetails {
    /// The details of a request whose proxy header, if present, reads `value`.
    pub fn from_header(value: Option<&str>) -> (r: RequestDetails)
        ensures
            opt_chars(r.ip_address) == (match value {
                Some(v) => Some(v@),
                None => None,
            }),
    {
        match value {
            Some(v) => RequestDetails { ip_address: Some(v.to_string()) },
            None => RequestDetails { ip_address: None },
        }
    }

    /// Whether a request for `path` with these details is refused: the
    /// metrics path is refused to requests that came through the proxy.
    pub fn forbids(&self, path: &str) -> (r: bool)
        ensures
            r == (path@ == METRICS_PATH@ && self.ip_address is Some),
    {
        let same = same_bytes(path.as_bytes(), METRICS_PATH.as_bytes());
        proof {
            encode_utf8_decode_utf8(path@);
            encode_utf8_decode_utf8(METRICS_PATH@);
        }
        same && self.ip_address.is_some()
    }
}

/// The lowercase hexadecimal BLAKE3 digest of a text's UTF-8 bytes.
pub uninterp spec fn blake3_hex_of(s: Seq<char>) -> Seq<char>;

/// Relies on `blake3::hash` and `Hash::to_hex`: the digest depends on the
/// bytes alone and is written as 64 lowercase hexadecimal digits.
#[verifier::external_body]
pub fn hash(input: &str) -> (r: String)
    ensures
        r@ == blake3_hex_of(input@),
        r@.len() == 64,
{
    blake3::hash(input.as_bytes()).to_hex().to_string()
}

/// Builds the root span of a request with its target hashed, so that no
/// query string reaches the logs.
#[derive(Debug)]
pub struct PrivacyFriendlyRootSpanBuilder;

impl PrivacyFriendlyRootSpanBuilder {
    /// What the span records as the target of a request: the digest of its
    /// path and query, or of the empty text where it has none.
    pub fn target(path_and_query: Option<&str>) -> (r: String)
        ensures
            r@ == blake3_hex_of(
                match path_and_query {
                    Some(p) => p@,
                    None => Seq::empty(),
                },
            ),
    {
        match path_and_query {
            Some(p) => hash(p),
            None => {
                let e = String::new();
                hash(e.as_str())
            },
        }
    }
}

/// `s` with every occurrence of `from`, found left to right without
/// overlap, replaced by `to`.
pub open spec fn replaced(s: Seq<char>, from: Seq<char>, to: Seq<char>) -> Seq<char>
    decreases s.len(),
{
    if from.len() == 0 || s.len() < from.len() {
        s
    } else if s.take(from.len() as int) == from {
        to + replaced(s.skip(from.len() as int), from, to)
    } else {
        seq![s[0]] + replaced(s.drop_first(), from, to)
    }
}

/// Relies on `str::replace`: every non-overlapping occurrence of a non-empty
/// pattern, from the left, is replaced.
#[verifier::external_body]
fn replace_all(s: &str, from: &str, to: &str) -> (r: String)
    requires
        from@.len() > 0,
    ensures
        r@ == replaced(s@, from@, to@),
{
    s.replace(from, to)
}

/// The content type that asks for a JSON answer.
pub const JSON_CONTENT_TYPE: &'static str = "application/json";

/// The page that sends the browser on to the cleaned URL without a referrer.
pub const REDIRECT_HTML: &'static str = r#"
<!DOCTYPE html>
<html><head>
<title>$$HOSTNAME$$...</title>
<meta http-equiv="Refresh" content="0; url=$$URL$$" />
<meta name="referrer" content="no-referrer" />
<script type="text/javascript">
/* <![CDATA[ */
window.opener = null; window.location.replace("$$URL_ESCAPED$$" + window.location.hash);
/* ]]> */
</script>
</head>
<body style="background-color: #000;color: #ccc;">
<noscript>
<p>Click to redirect:<br /><a href="$$URL$$">$$URL$$</a></p>
</noscript>
</body></html>"#;

/// The redirect page for a cleaned URL and the host shown in its title.
pub open spec fn page_html(url: Seq<char>, host: Seq<char>) -> Seq<char> {
    let escaped = replaced(url, "/"@, "\\/"@);
    replaced(
        replaced(replaced(REDIRECT_HTML@, "$$URL$$"@, url), "$$HOSTNAME$$"@, host),
        "$$URL_ESCAPED$$"@,
        escaped,
    )
}

/// The answer of the redirect endpoint.
#[derive(Debug)]
pub enum Redirect {
    /// A JSON answer with the cleaned and the original URL.
    Json { cleaned: String, original: String, handlers_used: i32, removed_trackers: bool },
    /// An HTML page that sends the browser on to the cleaned URL.
    Page { html: String, handlers_used: i32, removed_trackers: bool },
    /// A temporary redirect to the front-end application.
    ToApp,
}

/// The URL that the query string of a redirect request carries: its percent
/// decoding, or the query string itself where that fails.
pub open spec fn requested_url(query: Seq<char>) -> Seq<char> {
    match percent_decoded_text(query) {
        Some(d) => d,
        None => query,
    }
}

/// Whether a content-type header asks for JSON.
pub open spec fn wants_json(content_type: Option<Seq<u8>>) -> bool {
    match content_type {
        Some(ct) => occurs_in(encode_utf8(JSON_CONTENT_TYPE@), ct),
        None => false,
    }
}

/// Decides what the redirect endpoint answers to a request with the given
/// query string and content-type header: the URL cleaned by `rules`, as JSON
/// where the header asks for it and as a redirect page otherwise; or, where
/// the query string is empty or not a URL, a redirect to the front-end
/// application.
pub fn redirect_response(rules: &Vec<Rule>, query_string: &str, content_type: Option<&[u8]>) -> (r:
    Redirect)
    requires
        rules@.len() <= i32::MAX,
    ensures
        ({
            let input = requested_url(query_string@);
            if input.len() == 0 || parsed(input) is None {
                r is ToApp
            } else {
                let u = parsed(input)->0;
                let c = cleaned(rules_view(rules@), u);
                let text = display_text(c);
                let used = handler_count(rules_for(rules_view(rules@), u));
                let host = match c.host {
                    Some(h) => h,
                    None => input,
                };
                if wants_json(
                    match content_type {
                        Some(ct) => Some(ct@),
                        None => None,
                    },
                ) {
                    r matches Redirect::Json { cleaned, original, handlers_used, removed_trackers }
                        && cleaned@ == text && original@ == input && handlers_used == used
                        && removed_trackers == (text != input)
                } else {
                    r matches Redirect::Page { html, handlers_used, removed_trackers } && html@
                        == page_html(text, host) && handlers_used == used && removed_trackers == (
                    text != input)
                }
            }
        }),
{
    let input = match percent_decode(query_string) {
        Some(d) => d,
        None => query_string.to_string(),
    };
    if input.as_str().is_empty() {
        return Redirect::ToApp;
    }
    let result = match ParsedUrl::parse(input.as_str()) {
        Ok(u) => clean_with_rules(rules, u),
        Err(_) => {
            return Redirect::ToApp;
        },
    };
    let handlers_used = result.number_of_handlers_used();
    let cleaned_text = result.to_string();
    let removed_trackers = !(cleaned_text == input);
    let json = match content_type {
        Some(ct) => occurs(JSON_CONTENT_TYPE.as_bytes(), ct),
        None => false,
    };
    if json {
        return Redirect::Json { cleaned: cleaned_text, original: input, handlers_used, removed_trackers };
    }
    let hostname: &str = match result.url().host_str() {
        Some(h) => h,
        None => input.as_str(),
    };
    proof {
        reveal_strlit("/");
        reveal_strlit("$$URL$$");
        reveal_strlit("$$HOSTNAME$$");
        reveal_strlit("$$URL_ESCAPED$$");
    }
    let escaped = replace_all(cleaned_text.as_str(), "/", "\\/");
    let page = replace_all(REDIRECT_HTML, "$$URL$$", cleaned_text.as_str());
    let page = replace_all(page.as_str(), "$$HOSTNAME$$", hostname);
    let page = replace_all(page.as_str(), "$$URL_ESCAPED$$", escaped.as_str());
    Redirect::Page { html: page, handlers_used, removed_trackers }
}

} // verus!
