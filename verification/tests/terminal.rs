use httpie::{join, paint, paint_span, plain_text, render, to_terminal};
use httpie::{Color, Header, HttpResponse, Span, Version};

fn span(color: Option<Color>, text: &str) -> Span {
    Span { color, text: text.into() }
}

fn painted(code: &str, text: &str) -> String {
    format!("\x1b[{}m{}\x1b[0m", code, text)
}

#[test]
fn plain_spans_are_never_painted() {
    assert_eq!(paint_span(&span(None, "as it is")), "as it is");
    assert_eq!(paint_span(&span(None, "")), "");
    assert_eq!(paint_span(&span(None, "\x1b[0m")), "\x1b[0m");
}

#[test]
fn coloured_spans_are_shown_plain_or_painted() {
    for (color, code) in [(Color::Blue, "34"), (Color::Green, "32"), (Color::Cyan, "36")] {
        let shown = paint_span(&span(Some(color), "text"));
        assert!(shown == "text" || shown == painted(code, "text"));
    }
}

#[test]
fn forced_colours_paint_every_coloured_span() {
    colored::control::set_override(true);
    assert_eq!(paint_span(&span(Some(Color::Blue), "HTTP/1.1 200")), painted("34", "HTTP/1.1 200"));
    assert_eq!(paint_span(&span(Some(Color::Green), "server")), painted("32", "server"));
    assert_eq!(paint_span(&span(Some(Color::Cyan), "{}")), painted("36", "{}"));
    assert_eq!(paint_span(&span(Some(Color::Cyan), "")), painted("36", ""));
    assert_eq!(paint_span(&span(None, "plain")), "plain");
    assert_eq!(paint_span(&span(Some(Color::Green), "a\x1bb")), painted("32", "a\x1bb"));
    assert_eq!(paint_span(&span(Some(Color::Green), "\x1b[0")), painted("32", "\x1b[0"));
    assert_eq!(paint_span(&span(Some(Color::Green), "\x1b[1m")), painted("32", "\x1b[1m"));
    let spans = vec![span(Some(Color::Blue), "a"), span(None, "\n"), span(Some(Color::Green), "b")];
    assert_eq!(
        paint(&spans),
        vec![painted("34", "a"), "\n".to_string(), painted("32", "b")]
    );
    assert_eq!(to_terminal(&spans), "\x1b[34ma\x1b[0m\n\x1b[32mb\x1b[0m");
}

#[test]
fn join_puts_pieces_in_order() {
    assert_eq!(join(&vec!["a".to_string(), "".to_string(), "bc".to_string()]), "abc");
    assert_eq!(join(&Vec::new()), "");
}

#[test]
fn terminal_output_of_a_response() {
    let resp = HttpResponse {
        version: Version::Http11,
        status: 200,
        headers: vec![Header { name: "content-type".into(), value: "application/json".into() }],
        body: "{\"a\":\"1\",\"b\":\"2\"}".into(),
    };
    let spans = render(&resp).unwrap();
    let plain = "HTTP/1.1 200\ncontent-type: application/json\n\n{\n  \"a\": \"1\",\n  \"b\": \"2\"\n}\n";
    assert_eq!(plain_text(&spans), plain);
    let pieces = paint(&spans);
    assert_eq!(pieces.len(), spans.len());
    for (piece, span) in pieces.iter().zip(spans.iter()) {
        match span.color {
            None => assert_eq!(piece, &span.text),
            Some(color) => {
                let code = match color {
                    Color::Blue => "34",
                    Color::Green => "32",
                    Color::Cyan => "36",
                };
                assert!(piece == &span.text || piece == &painted(code, &span.text));
            }
        }
    }
    assert_eq!(join(&pieces).replace("\x1b[34m", "").replace("\x1b[32m", "").replace("\x1b[36m", "").replace("\x1b[0m", ""), plain);
}
