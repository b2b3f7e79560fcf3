//! A URL held as plain parts: what the cleaning logic reads and what it needs
//! to render the URL again. Parsing, form decoding and encoding, and percent
//! decoding are done by the `url` and `urlencoding` crates.
use vstd::prelude::*;
use vstd::utf8::{decode_utf8, encode_utf8, encode_utf8_decode_utf8, valid_utf8};

verus! {

#[verifier::external_type_specification]
#[verifier::external_body]
pub struct ExParseError(url::ParseError);

/// The components of a parsed URL as text: everything before the path
/// (scheme and authority), the scheme, the host, the path, the raw query and
/// the fragment.
pub struct UrlComponents {
    pub before_path: Seq<char>,
    pub scheme: Seq<char>,
    pub host: Option<Seq<char>>,
    pub path: Seq<char>,
    pub query: Option<Seq<char>>,
    pub fragment: Option<Seq<char>>,
}

/// What `url::Url::parse` makes of a text: `None` where it refuses it.
pub uninterp spec fn url_parse_of(s: Seq<char>) -> Option<UrlComponents>;

/// The name and value pairs that `application/x-www-form-urlencoded` decoding
/// reads from a query, in order.
pub uninterp spec fn form_pairs_of(q: Seq<char>) -> Seq<(Seq<char>, Seq<char>)>;

/// The view of an optional string.
pub open spec fn opt_chars(s: Option<String>) -> Option<Seq<char>> {
    match s {
        Some(t) => Some(t@),
        None => None,
    }
}

/// The components of a URL just as the parser hands them out.
pub struct RawUrl {
    pub before_path: String,
    pub scheme: String,
    pub host: Option<String>,
    pub path: String,
    pub query: Option<String>,
    pub fragment: Option<String>,
}

impl View for RawUrl {
    type V = UrlComponents;

    open spec fn view(&self) -> UrlComponents {
        UrlComponents {
            before_path: self.before_path@,
            scheme: self.scheme@,
            host: opt_chars(self.host),
            path: self.path@,
            query: opt_chars(self.query),
            fragment: opt_chars(self.fragment),
        }
    }
}

/// Relies on `url::Url::parse`, read back through `Url`'s accessors (the
/// serialization before `Position::BeforePath`, `scheme`, `host_str`, `path`,
/// `query` and `fragment`): the result depends on the text alone.
#[verifier::external_body]
fn parse_components(s: &str) -> (r: Result<RawUrl, url::ParseError>)
    ensures
        r is Ok <==> url_parse_of(s@) is Some,
        r matches Ok(raw) ==> url_parse_of(s@) == Some(raw@),
{
    let u = url::Url::parse(s)?;
    Ok(RawUrl {
        before_path: u[..url::Position::BeforePath].to_string(),
        scheme: u.scheme().to_string(),
        host: u.host_str().map(String::from),
        path: u.path().to_string(),
        query: u.query().map(String::from),
        fragment: u.fragment().map(String::from),
    })
}

/// One name and value pair of a query, both decoded.
#[derive(Debug)]
pub struct QueryPair {
    pub key: String,
    pub value: String,
}

impl View for QueryPair {
    type V = (Seq<char>, Seq<char>);

    open spec fn view(&self) -> (Seq<char>, Seq<char>) {
        (self.key@, self.value@)
    }
}

/// The views of a sequence of pairs.
pub open spec fn pairs_view(ps: Seq<QueryPair>) -> Seq<(Seq<char>, Seq<char>)> {
    ps.map_values(|p: QueryPair| p@)
}

/// Relies on `url::form_urlencoded::parse`: the decoded pairs of a query, in
/// order, depend on the query alone.
#[verifier::external_body]
fn decode_form_pairs(q: &str) -> (r: Vec<QueryPair>)
    ensures
        pairs_view(r@) == form_pairs_of(q@),
{
    url::form_urlencoded::parse(q.as_bytes()).into_owned().map(|(key, value)| QueryPair { key, value }).collect()
}

/// A byte that form encoding leaves as it is.
pub open spec fn form_unreserved(b: u8) -> bool {
    b == 0x2a || b == 0x2d || b == 0x2e || b == 0x5f || (0x30 <= b <= 0x39) || (0x41 <= b <= 0x5a)
        || (0x61 <= b <= 0x7a)
}

/// An upper-case hexadecimal digit.
pub open spec fn hex_digit(d: u8) -> char {
    if d < 10 {
        (0x30 + d) as u8 as char
    } else {
        (0x37 + d) as u8 as char
    }
}

/// How form encoding writes one byte.
pub open spec fn form_byte(b: u8) -> Seq<char> {
    if form_unreserved(b) {
        seq![b as char]
    } else if b == 0x20 {
        seq!['+']
    } else {
        seq!['%', hex_digit(b / 16), hex_digit(b % 16)]
    }
}

/// The `application/x-www-form-urlencoded` byte serialization.
pub open spec fn form_encoded(bytes: Seq<u8>) -> Seq<char>
    decreases bytes.len(),
{
    if bytes.len() == 0 {
        Seq::empty()
    } else {
        form_byte(bytes[0]) + form_encoded(bytes.drop_first())
    }
}

/// Relies on `url::form_urlencoded::byte_serialize`: it keeps ASCII letters,
/// digits and `*-._`, writes a space as `+` and any other byte as `%XX`.
#[verifier::external_body]
fn form_encode(s: &str) -> (r: String)
    ensures
        r@ == form_encoded(encode_utf8(s@)),
{
    url::form_urlencoded::byte_serialize(s.as_bytes()).collect()
}

/// The value of a hexadecimal digit, of either case.
pub open spec fn hex_value(b: u8) -> Option<u8> {
    if 0x30 <= b <= 0x39 {
        Some((b - 0x30) as u8)
    } else if 0x41 <= b <= 0x46 {
        Some((b - 0x37) as u8)
    } else if 0x61 <= b <= 0x66 {
        Some((b - 0x57) as u8)
    } else {
        None
    }
}

/// Percent decoding: `%` and two hexadecimal digits stand for one byte; any
/// other byte, a `%` that no two digits follow included, stands for itself.
pub open spec fn percent_decoded(bytes: Seq<u8>) -> Seq<u8>
    decreases bytes.len(),
{
    if bytes.len() == 0 {
        Seq::empty()
    } else if bytes[0] == 0x25 && bytes.len() >= 3 && hex_value(bytes[1]) is Some && hex_value(
        bytes[2],
    ) is Some {
        seq![(hex_value(bytes[1])->0 * 16 + hex_value(bytes[2])->0) as u8] + percent_decoded(
            bytes.subrange(3, bytes.len() as int),
        )
    } else {
        seq![bytes[0]] + percent_decoded(bytes.drop_first())
    }
}

/// The text that percent decoding gives, where its bytes are UTF-8.
pub open spec fn percent_decoded_text(s: Seq<char>) -> Option<Seq<char>> {
    let bytes = percent_decoded(encode_utf8(s));
    if valid_utf8(bytes) {
        Some(decode_utf8(bytes))
    } else {
        None
    }
}

/// Relies on `urlencoding::decode`: it percent-decodes and fails exactly when
/// the decoded bytes are not UTF-8.
#[verifier::external_body]
fn percent_decode_raw(s: &str) -> (r: Option<String>)
    ensures
        r is Some <==> valid_utf8(percent_decoded(encode_utf8(s@))),
        r matches Some(d) ==> encode_utf8(d@) == percent_decoded(encode_utf8(s@)),
{
    urlencoding::decode(s).ok().map(|d| d.into_owned())
}

/// Percent-decodes a text; `None` where the decoded bytes are not UTF-8.
pub fn percent_decode(s: &str) -> (r: Option<String>)
    ensures
        opt_chars(r) == percent_decoded_text(s@),
{
    let r = percent_decode_raw(s);
    proof {
        if r is Some {
            encode_utf8_decode_utf8(r->0@);
        }
    }
    r
}

/// The mathematical content of a URL.
pub struct UrlView {
    pub before_path: Seq<char>,
    pub scheme: Seq<char>,
    pub host: Option<Seq<char>>,
    pub path: Seq<char>,
    pub query: Option<Seq<(Seq<char>, Seq<char>)>>,
    pub fragment: Option<Seq<char>>,
}

/// A URL as plain parts. The query is held as its decoded pairs, in order;
/// `None` stands for a URL without a `?`.
#[derive(Debug)]
pub struct ParsedUrl {
    pub before_path: String,
    pub scheme: String,
    pub host: Option<String>,
    pub path: String,
    pub query: Option<Vec<QueryPair>>,
    pub fragment: Option<String>,
}

impl View for ParsedUrl {
    type V = UrlView;

    open spec fn view(&self) -> UrlView {
        UrlView {
            before_path: self.before_path@,
            scheme: self.scheme@,
            host: opt_chars(self.host),
            path: self.path@,
            query: match self.query {
                Some(ps) => Some(pairs_view(ps@)),
                None => None,
            },
            fragment: opt_chars(self.fragment),
        }
    }
}

/// The URL that a text parses to, with its query decoded into pairs.
pub open spec fn parsed(s: Seq<char>) -> Option<UrlView> {
    match url_parse_of(s) {
        Some(c) => Some(
            UrlView {
                before_path: c.before_path,
                scheme: c.scheme,
                host: c.host,
                path: c.path,
                query: match c.query {
                    Some(q) => Some(form_pairs_of(q)),
                    None => None,
                },
                fragment: c.fragment,
            },
        ),
        None => None,
    }
}

/// The serialization of one pair: encoded name, `=`, encoded value.
pub open spec fn pair_text(p: (Seq<char>, Seq<char>)) -> Seq<char> {
    form_encoded(encode_utf8(p.0)) + seq!['='] + form_encoded(encode_utf8(p.1))
}

/// The serialization of a sequence of pairs, joined by `&`.
pub open spec fn query_text(ps: Seq<(Seq<char>, Seq<char>)>) -> Seq<char>
    decreases ps.len(),
{
    if ps.len() == 0 {
        Seq::empty()
    } else if ps.len() == 1 {
        pair_text(ps[0])
    } else {
        query_text(ps.drop_last()) + seq!['&'] + pair_text(ps.last())
    }
}

/// The text of a URL: the part before the path, the path, then `?` and the
/// query and `#` and the fragment where they are present.
pub open spec fn rendered(u: UrlView) -> Seq<char> {
    u.before_path + u.path + match u.query {
        Some(ps) => seq!['?'] + query_text(ps),
        None => Seq::empty(),
    } + match u.fragment {
        Some(f) => seq!['#'] + f,
        None => Seq::empty(),
    }
}

/// A copy of a string.
fn copy_str(s: &String) -> (r: String)
    ensures
        r@ == s@,
{
    s.clone()
}

impl QueryPair {
    /// A copy of the pair.
    pub fn duplicate(&self) -> (r: QueryPair)
        ensures
            r@ == self@,
    {
        QueryPair { key: copy_str(&self.key), value: copy_str(&self.value) }
    }
}

impl ParsedUrl {
    /// Parses a text as an absolute URL; the error is the parser's.
    pub fn parse(s: &str) -> (r: Result<ParsedUrl, url::ParseError>)
        ensures
            r is Ok <==> parsed(s@) is Some,
            r matches Ok(u) ==> parsed(s@) == Some(u@),
    {
        match parse_components(s) {
            Ok(raw) => {
                let query = match &raw.query {
                    Some(q) => Some(decode_form_pairs(q.as_str())),
                    None => None,
                };
                Ok(
                    ParsedUrl {
                        before_path: raw.before_path,
                        scheme: raw.scheme,
                        host: raw.host,
                        path: raw.path,
                        query,
                        fragment: raw.fragment,
                    },
                )
            },
            Err(e) => Err(e),
        }
    }

    /// The scheme.
    pub fn scheme(&self) -> (r: &str)
        ensures
            r@ == self@.scheme,
    {
        self.scheme.as_str()
    }

    /// The host, where the URL has one.
    pub fn host_str(&self) -> (r: Option<&str>)
        ensures
            r matches Some(h) ==> self@.host == Some(h@),
            r is None ==> self@.host is None,
    {
        match &self.host {
            Some(h) => Some(h.as_str()),
            None => None,
        }
    }

    /// The path.
    pub fn path(&self) -> (r: &str)
        ensures
            r@ == self@.path,
    {
        self.path.as_str()
    }

    /// The fragment, where the URL has one.
    pub fn fragment(&self) -> (r: Option<&str>)
        ensures
            r matches Some(f) ==> self@.fragment == Some(f@),
            r is None ==> self@.fragment is None,
    {
        match &self.fragment {
            Some(f) => Some(f.as_str()),
            None => None,
        }
    }

    /// The query in its form serialization, where the URL has one.
    pub fn query(&self) -> (r: Option<String>)
        ensures
            r matches Some(q) ==> self@.query matches Some(ps) && q@ == query_text(ps),
            r is None ==> self@.query is None,
    {
        match &self.query {
            Some(ps) => Some(serialize_pairs(ps)),
            None => None,
        }
    }

    /// The text of the URL.
    pub fn as_string(&self) -> (r: String)
        ensures
            r@ == rendered(self@),
    {
        let mut out = copy_str(&self.before_path);
        out.append(self.path.as_str());
        match &self.query {
            Some(ps) => {
                let q = serialize_pairs(ps);
                out.append("?");
                proof {
                    reveal_strlit("?");
                }
                out.append(q.as_str());
            },
            None => {},
        }
        match &self.fragment {
            Some(f) => {
                out.append("#");
                proof {
                    reveal_strlit("#");
                }
                out.append(f.as_str());
            },
            None => {},
        }
        assert(out@ =~= rendered(self@));
        out
    }
}

/// The form serialization of a sequence of pairs.
fn serialize_pairs(ps: &Vec<QueryPair>) -> (r: String)
    ensures
        r@ == query_text(pairs_view(ps@)),
{
    let ghost v = pairs_view(ps@);
    let mut out = String::new();
    let mut i: usize = 0;
    while i < ps.len()
        invariant
            i <= ps@.len(),
            v == pairs_view(ps@),
            out@ == query_text(v.subrange(0, i as int)),
        decreases ps@.len() - i,
    {
        let p = &ps[i];
        let k = form_encode(p.key.as_str());
        let val = form_encode(p.value.as_str());
        proof {
            reveal_strlit("&");
            reveal_strlit("=");
        }
        if i > 0 {
            out.append("&");
        }
        out.append(k.as_str());
        out.append("=");
        out.append(val.as_str());
        proof {
            let w = v.subrange(0, i + 1);
            assert(w.drop_last() =~= v.subrange(0, i as int));
            assert(w.last() == v[i as int]);
            if i == 0 {
                assert(w.len() == 1);
            }
        }
        i += 1;
    }
    assert(v.subrange(0, ps@.len() as int) =~= v);
    out
}

} // verus!
