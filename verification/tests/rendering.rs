use httpie::{
    decimal_text, eq_ignore_ascii_case, json_body, json_span, lay_out, plain_text, plan_body,
    raw_span, render, status_text, BodyPlan, Color, Header, HttpResponse, RenderError, Span,
    Version,
};

fn header(name: &str, value: &str) -> Header {
    Header { name: name.into(), value: value.into() }
}

fn response(headers: Vec<Header>, body: &str) -> HttpResponse {
    HttpResponse { version: Version::Http11, status: 200, headers, body: body.into() }
}

fn span(color: Option<Color>, text: &str) -> Span {
    Span { color, text: text.into() }
}

#[test]
fn decimal_text_writes_the_number() {
    assert_eq!(decimal_text(0), "0");
    assert_eq!(decimal_text(7), "7");
    assert_eq!(decimal_text(10), "10");
    assert_eq!(decimal_text(99), "99");
    assert_eq!(decimal_text(100), "100");
    assert_eq!(decimal_text(200), "200");
    assert_eq!(decimal_text(404), "404");
    assert_eq!(decimal_text(12345), "12345");
    assert_eq!(decimal_text(65535), "65535");
}

#[test]
fn decimal_text_agrees_with_std() {
    for n in 0..=u16::MAX {
        assert_eq!(decimal_text(n), format!("{}", n));
    }
}

#[test]
fn status_text_holds_version_and_code() {
    assert_eq!(status_text(Version::Http09, 200), "HTTP/0.9 200");
    assert_eq!(status_text(Version::Http10, 301), "HTTP/1.0 301");
    assert_eq!(status_text(Version::Http11, 200), "HTTP/1.1 200");
    assert_eq!(status_text(Version::Http2, 404), "HTTP/2.0 404");
    assert_eq!(status_text(Version::Http3, 503), "HTTP/3.0 503");
}

#[test]
fn version_labels() {
    assert_eq!(Version::Http09.label(), "HTTP/0.9");
    assert_eq!(Version::Http10.label(), "HTTP/1.0");
    assert_eq!(Version::Http11.label(), "HTTP/1.1");
    assert_eq!(Version::Http2.label(), "HTTP/2.0");
    assert_eq!(Version::Http3.label(), "HTTP/3.0");
}

#[test]
fn names_compare_without_case() {
    assert!(eq_ignore_ascii_case("content-type", "Content-Type"));
    assert!(eq_ignore_ascii_case("CONTENT-TYPE", "content-type"));
    assert!(eq_ignore_ascii_case("", ""));
    assert!(eq_ignore_ascii_case("azAZ09-_", "AZaz09-_"));
    assert!(!eq_ignore_ascii_case("content-type", "content-typ"));
    assert!(!eq_ignore_ascii_case("content-type", "content_type"));
    assert!(!eq_ignore_ascii_case("@", "`"));
    assert!(!eq_ignore_ascii_case("[", "{"));
    assert!(!eq_ignore_ascii_case("é", "É"));
    assert!(eq_ignore_ascii_case("é", "é"));
}

#[test]
fn content_type_is_the_first_of_its_name() {
    let resp = response(
        vec![
            header("date", "today"),
            header("Content-Type", "text/plain"),
            header("content-type", "application/json"),
        ],
        "",
    );
    assert_eq!(resp.content_type(), Some("text/plain"));
    let resp = response(vec![header("CONTENT-TYPE", "a/b")], "");
    assert_eq!(resp.content_type(), Some("a/b"));
}

#[test]
fn content_type_may_be_missing() {
    assert_eq!(response(Vec::new(), "").content_type(), None);
    let resp = response(vec![header("content-length", "0"), header("x-content-type", "a/b")], "");
    assert_eq!(resp.content_type(), None);
}

#[test]
fn plan_without_declaration_is_verbatim() {
    assert_eq!(plan_body(None, None), Ok(BodyPlan::Verbatim));
    assert_eq!(plan_body(None, Some("application/json".into())), Ok(BodyPlan::Verbatim));
}

#[test]
fn plan_for_json_is_reindent() {
    assert_eq!(
        plan_body(Some("application/json"), Some("application/json".into())),
        Ok(BodyPlan::Reindent)
    );
    assert_eq!(
        plan_body(Some("application/json; charset=utf-8"), Some("application/json".into())),
        Ok(BodyPlan::Reindent)
    );
}

#[test]
fn plan_for_other_types_is_verbatim() {
    for essence in ["text/html", "application/jsonp", "application/json5", "text/json", ""] {
        assert_eq!(plan_body(Some("x"), Some(essence.into())), Ok(BodyPlan::Verbatim));
    }
}

#[test]
fn plan_for_an_invalid_declaration_fails() {
    assert_eq!(
        plan_body(Some("not a type"), None),
        Err(RenderError::InvalidContentType("not a type".into()))
    );
}

#[test]
fn json_span_is_cyan_or_fails() {
    assert_eq!(
        json_span(Ok("{\n  \"a\": 1\n}".into())),
        Ok(span(Some(Color::Cyan), "{\n  \"a\": 1\n}"))
    );
    assert_eq!(
        json_span(Err("unexpected end".into())),
        Err(RenderError::MalformedJsonBody("unexpected end".into()))
    );
}

#[test]
fn raw_span_keeps_the_body() {
    assert_eq!(raw_span("<html>\n</html>"), span(None, "<html>\n</html>"));
    assert_eq!(raw_span(""), span(None, ""));
}

#[test]
fn layout_of_a_response() {
    let resp = HttpResponse {
        version: Version::Http2,
        status: 404,
        headers: vec![header("server", "nginx"), header("x-empty", "")],
        body: "ignored".into(),
    };
    let spans = lay_out(&resp, span(None, "gone"));
    assert_eq!(
        spans,
        vec![
            span(Some(Color::Blue), "HTTP/2.0 404"),
            span(None, "\n"),
            span(Some(Color::Green), "server"),
            span(None, ": nginx\n"),
            span(Some(Color::Green), "x-empty"),
            span(None, ": \n"),
            span(None, "\n"),
            span(None, "gone"),
            span(None, "\n"),
        ]
    );
    assert_eq!(
        plain_text(&spans),
        "HTTP/2.0 404\nserver: nginx\nx-empty: \n\ngone\n"
    );
}

#[test]
fn layout_without_headers() {
    let resp = response(Vec::new(), "");
    let spans = lay_out(&resp, raw_span(""));
    assert_eq!(spans.len(), 5);
    assert_eq!(plain_text(&spans), "HTTP/1.1 200\n\n\n");
}

#[test]
fn plain_text_of_nothing_is_empty() {
    assert_eq!(plain_text(&Vec::new()), "");
}

#[test]
fn render_json_response() {
    let resp = response(
        vec![
            header("content-type", "application/json"),
            header("content-length", "17"),
        ],
        "{\"a\":1,\"b\":[2,3]}",
    );
    let spans = render(&resp).unwrap();
    assert_eq!(
        spans,
        vec![
            span(Some(Color::Blue), "HTTP/1.1 200"),
            span(None, "\n"),
            span(Some(Color::Green), "content-type"),
            span(None, ": application/json\n"),
            span(Some(Color::Green), "content-length"),
            span(None, ": 17\n"),
            span(None, "\n"),
            span(Some(Color::Cyan), "{\n  \"a\": 1,\n  \"b\": [\n    2,\n    3\n  ]\n}"),
            span(None, "\n"),
        ]
    );
    assert_eq!(
        plain_text(&spans),
        "HTTP/1.1 200\ncontent-type: application/json\ncontent-length: 17\n\n{\n  \"a\": 1,\n  \"b\": [\n    2,\n    3\n  ]\n}\n"
    );
}

#[test]
fn render_json_with_parameters_and_capitals() {
    let resp = response(
        vec![header("Content-Type", "Application/JSON; charset=utf-8")],
        "{\"args\":{}}",
    );
    let spans = render(&resp).unwrap();
    assert_eq!(spans.len(), 7);
    assert_eq!(spans[5], span(Some(Color::Cyan), "{\n  \"args\": {}\n}"));
}

#[test]
fn render_keeps_other_bodies() {
    let body = "{\"a\":1}\n<p>not   touched</p>";
    for declared in ["text/html", "text/plain; charset=utf-8", "application/jsonp", "image/svg+xml"] {
        let resp = response(vec![header("content-type", declared)], body);
        let spans = render(&resp).unwrap();
        assert_eq!(spans[spans.len() - 2], span(None, body));
    }
}

#[test]
fn render_without_content_type_keeps_the_body() {
    let resp = response(vec![header("server", "x")], "{\"a\":1}");
    let spans = render(&resp).unwrap();
    assert_eq!(spans[spans.len() - 2], span(None, "{\"a\":1}"));
}

#[test]
fn render_fails_on_an_invalid_content_type() {
    for declared in ["", "json", "/json", "text/pl ain", "a/b; c", "a/b; c=\"d"] {
        let resp = response(vec![header("content-type", declared)], "{}");
        assert_eq!(render(&resp), Err(RenderError::InvalidContentType(declared.into())));
    }
}

#[test]
fn render_goes_by_the_first_content_type() {
    let resp = response(
        vec![header("content-type", "text/plain"), header("content-type", "application/json")],
        "{\"a\":1}",
    );
    let spans = render(&resp).unwrap();
    assert_eq!(spans[spans.len() - 2], span(None, "{\"a\":1}"));
}

#[test]
fn render_keeps_the_order_of_headers() {
    let names = ["z", "a", "m", "a", "b"];
    let resp = response(names.iter().map(|n| header(n, n)).collect(), "");
    let spans = render(&resp).unwrap();
    assert_eq!(spans.len(), 2 * names.len() + 5);
    for (i, n) in names.iter().enumerate() {
        assert_eq!(spans[2 + 2 * i], span(Some(Color::Green), n));
        assert_eq!(spans[3 + 2 * i], span(None, &format!(": {}\n", n)));
    }
}

#[test]
fn render_twice_gives_the_same() {
    let make = || {
        response(
            vec![header("content-type", "application/json"), header("x", "y")],
            "[1, 2, {\"k\": null}]",
        )
    };
    let a = render(&make()).unwrap();
    let b = render(&make()).unwrap();
    assert_eq!(a, b);
    assert_eq!(plain_text(&a), plain_text(&b));
    let resp = make();
    assert_eq!(render(&resp), render(&resp));
}

#[test]
fn render_errors_say_what_was_wrong() {
    assert_eq!(
        RenderError::InvalidContentType("x y".into()).message(),
        "not a media type: x y"
    );
    assert_eq!(
        RenderError::MalformedJsonBody("bad".into()).message(),
        "malformed JSON body: bad"
    );
}

#[test]
fn render_refuses_a_body_that_is_no_json() {
    for body in ["{\"a\":", "{not json", "", "[1, 2", "\"open", "{\"a\": tru}", "{\"a\":1} x"] {
        for declared in ["application/json", "application/json; charset=utf-8"] {
            let resp = response(vec![header("content-type", declared)], body);
            assert_eq!(
                render(&resp),
                Err(RenderError::MalformedJsonBody("not well formed".into()))
            );
        }
    }
}

#[test]
fn render_shows_a_body_that_is_no_json_where_none_was_declared() {
    for body in ["{\"a\":", "{not json", ""] {
        let resp = response(vec![header("content-type", "text/plain")], body);
        let spans = render(&resp).unwrap();
        assert_eq!(spans[spans.len() - 2], span(None, body));
        let resp = response(Vec::new(), body);
        let spans = render(&resp).unwrap();
        assert_eq!(spans[spans.len() - 2], span(None, body));
    }
}

#[test]
fn json_body_is_indented_or_refused() {
    assert_eq!(
        json_body(" {\"a\":[1,2],\"b\":{}} "),
        Ok(span(Some(Color::Cyan), "{\n  \"a\": [\n    1,\n    2\n  ],\n  \"b\": {}\n}"))
    );
    assert_eq!(json_body("null"), Ok(span(Some(Color::Cyan), "null")));
    assert_eq!(
        json_body("{\"a\":"),
        Err(RenderError::MalformedJsonBody("not well formed".into()))
    );
    assert_eq!(
        json_body("{\"a\":").unwrap_err().message(),
        "malformed JSON body: not well formed"
    );
}

#[test]
fn a_failed_pretty_print_stops_the_rendering() {
    let failed = json_span(Err("invalid JSON".into()));
    assert_eq!(failed, Err(RenderError::MalformedJsonBody("invalid JSON".into())));
    assert_eq!(failed.unwrap_err().message(), "malformed JSON body: invalid JSON");
}
