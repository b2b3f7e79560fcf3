use tracking_params::M;

#[test]
fn matcher() {
    assert!(M::Any.matches_str(Some("yoyo")), "any");
    assert!(M::Contains("utm_").matches_str(Some("abc_utm_")), "contains");
    assert!(M::Exact("utm_").matches_str(Some("utm_")), "exact");
    assert!(M::StartsWith("utm_").matches_str(Some("utm_abc")), "starts_with");
}

#[test]
fn matcher_absent_value() {
    assert!(M::Any.matches(None));
    assert!(!M::Exact("a").matches(None));
    assert!(!M::StartsWith("a").matches(None));
    assert!(!M::Contains("a").matches(None));
    assert!(!M::ContainsAll(vec!["a"]).matches(None));
    assert!(!M::AllBut("a").matches(None));
}

#[test]
fn matcher_each_variant_on_bytes() {
    assert!(!M::Exact("utm_").matches(Some(b"utm_a")));
    assert!(!M::StartsWith("utm_").matches(Some(b"ut")));
    assert!(!M::Contains("utm").matches(Some(b"abc")));
    assert!(M::Contains("").matches(Some(b"abc")));
    assert!(M::ContainsAll(vec!["google", "/url"]).matches(Some(b"www.google.com/url")));
    assert!(!M::ContainsAll(vec!["google", "/url"]).matches(Some(b"www.google.com/search")));
    assert!(M::ContainsAll(vec![]).matches(Some(b"")));
    assert!(M::AllBut("x").matches(Some(b"y")));
    assert!(!M::AllBut("x").matches(Some(b"x")));
}
