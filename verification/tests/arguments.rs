use httpie::{parse_kv_pair, parse_url, url_from_verdict, KvPair, ParseError};

#[test]
fn parse_url_works() {
    assert!(parse_url("abc").is_err());
    assert!(parse_url("http://abc.xyz").is_ok());
    assert!(parse_url("https://httpbin.org/post").is_ok());
}

#[test]
fn parse_kv_pair_works() {
    assert!(parse_kv_pair("a").is_err());
    assert_eq!(
        parse_kv_pair("a=1").unwrap(),
        KvPair {
            k: "a".into(),
            v: "1".into()
        }
    );
    assert_eq!(
        parse_kv_pair("b=").unwrap(),
        KvPair {
            k: "b".into(),
            v: "".into()
        }
    );
}

#[test]
fn pair_without_separator_is_malformed() {
    for token in ["a", "", "key", "a:b", "héllo"] {
        match parse_kv_pair(token) {
            Err(ParseError::MalformedPair(t)) => assert_eq!(t, token),
            other => panic!("{:?}", other),
        }
    }
}

#[test]
fn pair_splits_at_first_separator() {
    let p = parse_kv_pair("a=b=c").unwrap();
    assert_eq!(p.k, "a");
    assert_eq!(p.v, "b=c");
    let p = parse_kv_pair("=").unwrap();
    assert_eq!(p.k, "");
    assert_eq!(p.v, "");
    let p = parse_kv_pair("=x").unwrap();
    assert_eq!(p.k, "");
    assert_eq!(p.v, "x");
    let p = parse_kv_pair("ключ=значение=ещё").unwrap();
    assert_eq!(p.k, "ключ");
    assert_eq!(p.v, "значение=ещё");
}

#[test]
fn pair_from_str_agrees_with_parse() {
    assert_eq!(KvPair::from_str("x=y").unwrap(), parse_kv_pair("x=y").unwrap());
    assert!(KvPair::from_str("xy").is_err());
}

#[test]
fn url_comes_back_unchanged() {
    for token in ["http://abc.xyz", "https://httpbin.org/post", "HTTP://Example.COM:80/a/../b?q=1#frag"] {
        let url = parse_url(token).unwrap();
        assert_eq!(url.as_str(), token);
        assert_eq!(url.into_string(), token);
    }
}

#[test]
fn invalid_url_carries_the_token() {
    for token in ["abc", "", "://x", "/relative/path"] {
        match parse_url(token) {
            Err(ParseError::InvalidUrl(t)) => assert_eq!(t, token),
            other => panic!("{:?}", other),
        }
    }
}

#[test]
fn url_verdict_decides() {
    assert_eq!(url_from_verdict("anything", true).unwrap().as_str(), "anything");
    match url_from_verdict("http://abc.xyz", false) {
        Err(ParseError::InvalidUrl(t)) => assert_eq!(t, "http://abc.xyz"),
        other => panic!("{:?}", other),
    }
}

#[test]
fn parse_errors_say_what_was_wrong() {
    assert_eq!(
        parse_kv_pair("oops").unwrap_err().message(),
        "not a key=value pair: oops"
    );
    assert_eq!(parse_url("abc").unwrap_err().message(), "not a valid URL: abc");
    assert_eq!(
        ParseError::InvalidUrl(String::new()).message(),
        "not a valid URL: "
    );
}
