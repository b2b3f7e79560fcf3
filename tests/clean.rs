use tracking_params::parsed_url::percent_decode;
use tracking_params::{clean, clean_str, clean_str_raw, ParsedUrl};

fn cleaned(input: &str) -> String {
    clean(ParsedUrl::parse(input).unwrap()).to_string()
}

#[test]
fn trailing_equals_is_not_added() {
    assert_eq!(clean_str("https://x.test/?json").unwrap(), "https://x.test/?json");
    assert_eq!(cleaned("https://whatsmyreferer.com/?json"), "https://whatsmyreferer.com/?json");
}

#[test]
fn twitter_good_and_bad_query() {
    assert_eq!(
        cleaned("https://twitter.com/s/1?ref_src=twsrc%5Etfw&from=home"),
        "https://twitter.com/s/1?from=home"
    );
}

#[test]
fn google_redirect_extracts_q() {
    assert_eq!(
        cleaned("https://www.google.com/url?q=https%3A%2F%2Fexample.org%2Fx&usg=AAA"),
        "https://example.org/x"
    );
}

#[test]
fn google_redirect_with_invalid_q_strips_usg() {
    assert_eq!(
        cleaned("https://www.google.com/url?q=not_a_url&usg=AAA"),
        "https://www.google.com/url?q=not_a_url"
    );
}

#[test]
fn utm_query_is_stripped() {
    assert_eq!(cleaned("https://example.com/p?utm_source=a&id=5"), "https://example.com/p?id=5");
}

#[test]
fn fragment_items_are_stripped() {
    assert_eq!(cleaned("https://x.test/p#ref_src=a&from=home"), "https://x.test/p#from=home");
}

#[test]
fn twitter_single_bad_query() {
    assert_eq!(
        cleaned("https://twitter.com/elonmusk/status/1608273870901096454?ref_src=twsrc%5Etfw"),
        "https://twitter.com/elonmusk/status/1608273870901096454"
    );
}

#[test]
fn twitter_single_good_query() {
    assert_eq!(
        cleaned("https://twitter.com/elonmusk/status/1608273870901096454?from=home"),
        "https://twitter.com/elonmusk/status/1608273870901096454?from=home"
    );
}

#[test]
fn twitter_bad_queries_without_value() {
    assert_eq!(
        cleaned("https://twitter.com/elonmusk/status/1608273870901096454?ref_src"),
        "https://twitter.com/elonmusk/status/1608273870901096454"
    );
    assert_eq!(
        cleaned("https://twitter.com/elonmusk/status/1608273870901096454?from=home&ref_src"),
        "https://twitter.com/elonmusk/status/1608273870901096454?from=home"
    );
    assert_eq!(
        cleaned("https://twitter.com/elonmusk/status/1608273870901096454?from"),
        "https://twitter.com/elonmusk/status/1608273870901096454?from"
    );
    assert_eq!(
        cleaned("https://twitter.com/elonmusk/status/1608273870901096454?from&ref_src=abc"),
        "https://twitter.com/elonmusk/status/1608273870901096454?from"
    );
}

#[test]
fn twitter_hash_params() {
    assert_eq!(
        cleaned("https://twitter.com/elonmusk/status/1608273870901096454#ref_src=twsrc%5Etfw"),
        "https://twitter.com/elonmusk/status/1608273870901096454"
    );
    assert_eq!(
        cleaned("https://twitter.com/elonmusk/status/1608273870901096454#from=home"),
        "https://twitter.com/elonmusk/status/1608273870901096454#from=home"
    );
    assert_eq!(
        cleaned("https://twitter.com/elonmusk/status/1608273870901096454#ref_src=twsrc%5Etfw&from=home"),
        "https://twitter.com/elonmusk/status/1608273870901096454#from=home"
    );
}

#[test]
fn twitter_query_and_hash_params() {
    assert_eq!(
        cleaned("https://twitter.com/elonmusk/status/1608273870901096454?ref_src=twsrc%5Etfw&from=home#ref_src=twsrc%5Etfw&from=home"),
        "https://twitter.com/elonmusk/status/1608273870901096454?from=home#from=home"
    );
    assert_eq!(
        cleaned("https://twitter.com/elonmusk/status/1608273870901096454?ref_src=twsrc%5Etfw#ref_src=twsrc%5Etfw"),
        "https://twitter.com/elonmusk/status/1608273870901096454"
    );
}

#[test]
fn utm_prefix_queries() {
    assert_eq!(cleaned("https://example.com/my-post?utm_xyx=abc&id=12456"), "https://example.com/my-post?id=12456");
    assert_eq!(
        cleaned("https://example.com/my-post?utm_xyx=abc&id=12456&utm_life=asssc"),
        "https://example.com/my-post?id=12456"
    );
}

#[test]
fn google_result_links() {
    assert_eq!(
        cleaned("https://www.google.com/url?sa=t&rct=j&q=&esrc=s&source=web&cd=&ved=2ahUKEwi8hMv_nKP8AhWXhFwKHSetARUQFnoECBgQAQ&url=https%3A%2F%2Fdeveloper.mozilla.org%2Fen-US%2Fdocs%2FWeb%2FHTTP%2FHeaders%2FReferer&usg=AOvVaw0W8-mEp9kfFnE9c5S1DUp0"),
        "https://developer.mozilla.org/en-US/docs/Web/HTTP/Headers/Referer"
    );
    assert_eq!(
        cleaned("https://www.google.com/url?q=http://www.capitalfm.com/news/tv-film/netflix/kaleidoscope-episode-order/&sa=D&source=calendar&usd=2&usg=AOvVaw0DUKL0RoiXBhCFMYU_U2jY"),
        "http://www.capitalfm.com/news/tv-film/netflix/kaleidoscope-episode-order/"
    );
    assert_eq!(
        cleaned("https://www.google.com/url?sa=t&rct=j&esrc=s&source=web&cd=&ved=2ahUKEwi8hMv_nKP8AhWXhFwKHSetARUQFnoECBgQAQ&q=invalid_url&q=https%3A%2F%2Fdeveloper.mozilla.org%2Fen-US%2Fdocs%2FWeb%2FHTTP%2FHeaders%2FReferer&usg=AOvVaw0W8-mEp9kfFnE9c5S1DUp0"),
        "https://developer.mozilla.org/en-US/docs/Web/HTTP/Headers/Referer"
    );
    assert_eq!(
        cleaned("https://www.google.com/url?sa=t&rct=j&esrc=s&source=web&cd=&ved=2ahUKEwi8hMv_nKP8AhWXhFwKHSetARUQFnoECBgQAQ&q=invalid_url&q=https://developer.mozilla.org/en-US/docs/Web/HTTP/Headers/Referer"),
        "https://developer.mozilla.org/en-US/docs/Web/HTTP/Headers/Referer"
    );
}

#[test]
fn youtube_redirect_links() {
    assert_eq!(
        cleaned("https://www.youtube.com/redirect?event=channel_description&redir_token=JWT_TOKEN&q=https%3A%2F%2Fwww.britishairways.com"),
        "https://www.britishairways.com/"
    );
    assert_eq!(
        cleaned("https://www.youtube.com/redirect?event=channel_description&redir_token=JWT_TOKEN&q=invalid_url"),
        "https://www.youtube.com/redirect?event=channel_description&redir_token=JWT_TOKEN&q=invalid_url"
    );
}

#[test]
fn amazon_redirect_extracts_u() {
    assert_eq!(
        cleaned("https://www.amazon.co.uk/gp/r.html?C=HEX&K=SOMEHEX&M=urn:rtn:msg:NUMBERS&R=SOMETHING&T=C&U=https%3A%2F%2Fwww.amazon.co.uk%2Fgp%2Fyour-account%2Forder-details%3ForderID%3DOREDER_ID%26ref_%3Dpreference&H=TEXT&ref_=pe_ref_with_underscore"),
        "https://www.amazon.co.uk/gp/your-account/order-details?orderID=OREDER_ID&ref_=preference"
    );
}

#[test]
fn handler_count_is_reported() {
    let c = clean_str_raw("https://www.google.com/url?q=https%3A%2F%2Fexample.org%2Fx").unwrap();
    assert_eq!(c.number_of_handlers_used(), 1);
    assert_eq!(c.host_str(), Some("example.org"));
    let c = clean_str_raw("https://example.com/p?utm_source=a").unwrap();
    assert_eq!(c.number_of_handlers_used(), 0);
}

#[test]
fn parse_failure_is_an_error() {
    assert!(clean_str("not a url").is_err());
    assert!(clean_str_raw("").is_err());
}

#[test]
fn url_without_query_or_fragment_is_unchanged() {
    assert_eq!(cleaned("https://example.com/a/b"), "https://example.com/a/b");
    assert_eq!(cleaned("https://www.google.com/url"), "https://www.google.com/url");
}

#[test]
fn all_pairs_stripped_leaves_no_separator() {
    assert_eq!(cleaned("https://example.com/p?utm_source=a&fbclid=b"), "https://example.com/p");
    assert_eq!(cleaned("https://example.com/p#utm_source=a&fbclid=b"), "https://example.com/p");
    assert_eq!(cleaned("https://example.com/p?"), "https://example.com/p");
}

#[test]
fn cleaning_twice_changes_nothing() {
    let once = cleaned("https://example.com/p?utm_source=a&id=5&x=a+b#gclid=1&k=v");
    assert_eq!(cleaned(&once), once);
}

#[test]
fn query_is_form_reencoded() {
    assert_eq!(cleaned("https://example.com/p?a=b%20c&d=%7E"), "https://example.com/p?a=b+c&d=%7E");
}

#[test]
fn kept_fragment_items_pass_verbatim() {
    assert_eq!(cleaned("https://example.com/p#a=%41&&b"), "https://example.com/p#a=%41&&b");
}

#[test]
fn parsed_url_accessors() {
    let u = ParsedUrl::parse("https://Example.com:8443/a%20b/c?x=1&y=a+b#frag").unwrap();
    assert_eq!(u.scheme(), "https");
    assert_eq!(u.host_str(), Some("example.com"));
    assert_eq!(u.path(), "/a%20b/c");
    assert_eq!(u.query().as_deref(), Some("x=1&y=a+b"));
    assert_eq!(u.fragment(), Some("frag"));
    assert_eq!(u.as_string(), "https://example.com:8443/a%20b/c?x=1&y=a+b#frag");
    let pairs: Vec<(&str, &str)> = u.query.as_ref().unwrap().iter().map(|p| (p.key.as_str(), p.value.as_str())).collect();
    assert_eq!(pairs, vec![("x", "1"), ("y", "a b")]);
}

#[test]
fn percent_decoding_of_values() {
    assert_eq!(percent_decode("a%2Fb%zz%4").as_deref(), Some("a/b%zz%4"));
    assert_eq!(percent_decode("a+b").as_deref(), Some("a+b"));
    assert_eq!(percent_decode("%FF"), None);
}

#[test]
fn youtube_without_redirect_path_is_not_rewritten() {
    assert_eq!(
        cleaned("https://www.youtube.com/watch?v=1&q=https%3A%2F%2Fexample.org&feature=share"),
        "https://www.youtube.com/watch?v=1&q=https%3A%2F%2Fexample.org"
    );
}

#[test]
fn host_path_signature_needs_both_parts() {
    // google without `/url` keeps `usg` and does not extract `q`
    assert_eq!(
        cleaned("https://www.google.com/search?q=https%3A%2F%2Fexample.org&usg=1&ei=2"),
        "https://www.google.com/search?q=https%3A%2F%2Fexample.org&usg=1"
    );
}

#[test]
fn surviving_pairs_keep_values_and_order() {
    assert_eq!(
        cleaned("https://example.com/p?b=1&utm_x=2&a=3&fbclid=z&b=4"),
        "https://example.com/p?b=1&a=3&b=4"
    );
}
