//! Laying a response out for the terminal.

use vstd::prelude::*;
use crate::json::{is_json, pretty_json, pretty_printed, well_formed_json};
use crate::media::{
    json_essence, mime_essence, not_well_formed, parse_mime_essence, plan_body, plan_for, BodyPlan,
    RenderError, RenderErrorView,
};
use crate::response::{
    declared_content_type, version_label, HeaderView, HttpResponse, ResponseView, Version,
};

verus! {

/// The colours that set parts of the output off.
#[derive(Debug, Clone, Copy, PartialEq, Eq, Structural)]
pub enum Color {
    Blue,
    Green,
    Cyan,
}

/// A stretch of output in one colour, or in none.
#[derive(Debug, Clone, PartialEq, Eq)]
pub struct Span {
    pub color: Option<Color>,
    pub text: String,
}

/// What a [`Span`] holds, with its text as a sequence of characters.
pub struct SpanView {
    pub color: Option<Color>,
    pub text: Seq<char>,
}

impl View for Span {
    type V = SpanView;

    open spec fn view(&self) -> SpanView {
        SpanView { color: self.color, text: self.text@ }
    }
}

/// The spans of `spans`, each by its view.
pub open spec fn span_views(spans: Seq<Span>) -> Seq<SpanView> {
    Seq::new(spans.len(), |i: int| spans[i]@)
}

/// A span without colour.
pub open spec fn plain(text: Seq<char>) -> SpanView {
    SpanView { color: None, text }
}

/// The decimal digit for `d`.
pub open spec fn digit(d: nat) -> char {
    if d == 0 {
        '0'
    } else if d == 1 {
        '1'
    } else if d == 2 {
        '2'
    } else if d == 3 {
        '3'
    } else if d == 4 {
        '4'
    } else if d == 5 {
        '5'
    } else if d == 6 {
        '6'
    } else if d == 7 {
        '7'
    } else if d == 8 {
        '8'
    } else {
        '9'
    }
}

/// `n` in decimal, without leading zeros.
pub open spec fn decimal(n: nat) -> Seq<char>
    decreases n,
{
    if n < 10 {
        seq![digit(n)]
    } else {
        decimal(n / 10).push(digit(n % 10))
    }
}

/// The status line: the version, a space, the status code in decimal.
pub open spec fn status_line(version: Version, status: u16) -> Seq<char> {
    version_label(version) + " "@ + decimal(status as nat)
}

/// The span that shows the status line.
pub open spec fn status_span(resp: ResponseView) -> SpanView {
    SpanView { color: Some(Color::Blue), text: status_line(resp.version, resp.status) }
}

/// The span that shows the name of a header.
pub open spec fn name_span(header: HeaderView) -> SpanView {
    SpanView { color: Some(Color::Green), text: header.name }
}

/// The span that shows the rest of a header's line: `: `, the value, the end
/// of the line.
pub open spec fn value_span(header: HeaderView) -> SpanView {
    plain(": "@ + header.value + "\n"@)
}

/// The spans that show the headers: for each header, in the order given, its
/// name and the rest of its line.
pub open spec fn header_spans(headers: Seq<HeaderView>) -> Seq<SpanView>
    decreases headers.len(),
{
    if headers.len() == 0 {
        Seq::empty()
    } else {
        header_spans(headers.drop_last()).push(name_span(headers.last())).push(
            value_span(headers.last()),
        )
    }
}

/// The whole output for a response whose body is shown as `body`: the status
/// line, the header lines, an empty line, the body and the end of its line.
pub open spec fn layout(resp: ResponseView, body: SpanView) -> Seq<SpanView> {
    seq![status_span(resp), plain("\n"@)] + header_spans(resp.headers) + seq![
        plain("\n"@),
        body,
        plain("\n"@),
    ]
}

/// The span for a body that is shown as it came.
pub open spec fn verbatim_span(body: Seq<char>) -> SpanView {
    plain(body)
}

/// The span for a well-formed body that was handed to the pretty-printer, or
/// the error where the pretty-printer gave up.
pub open spec fn reindented_span(pretty: Result<Seq<char>, Seq<char>>) -> Result<
    SpanView,
    RenderErrorView,
> {
    match pretty {
        Ok(p) => Ok(SpanView { color: Some(Color::Cyan), text: p }),
        Err(e) => Err(RenderErrorView::MalformedJsonBody(e)),
    }
}

/// The span for a body that was declared as JSON: the error where the body
/// is no JSON text, and else what comes of handing it to the pretty-printer.
pub open spec fn json_body_span(body: Seq<char>) -> Result<SpanView, RenderErrorView> {
    if well_formed_json(body) {
        reindented_span(pretty_printed(body))
    } else {
        Err(RenderErrorView::MalformedJsonBody(not_well_formed()))
    }
}

/// The essence of the media type that the response declares, if it declares
/// one and the media type parser accepts it.
pub open spec fn declared_essence(resp: ResponseView) -> Option<Seq<char>> {
    match declared_content_type(resp.headers) {
        Some(value) => mime_essence(value),
        None => None,
    }
}

/// The body of the response is declared as JSON.
pub open spec fn declared_as_json(resp: ResponseView) -> bool {
    declared_essence(resp) == Some(json_essence())
}

/// What rendering a response gives: all of its output, or the one error that
/// stops it.
pub open spec fn rendering(resp: ResponseView) -> Result<Seq<SpanView>, RenderErrorView> {
    match plan_for(declared_content_type(resp.headers), declared_essence(resp)) {
        Err(e) => Err(e),
        Ok(BodyPlan::Verbatim) => Ok(layout(resp, verbatim_span(resp.body))),
        Ok(BodyPlan::Reindent) => match json_body_span(resp.body) {
            Err(e) => Err(e),
            Ok(body) => Ok(layout(resp, body)),
        },
    }
}

/// The text of all spans, one after the other.
pub open spec fn plain_text_of(spans: Seq<SpanView>) -> Seq<char>
    decreases spans.len(),
{
    if spans.len() == 0 {
        Seq::empty()
    } else {
        plain_text_of(spans.drop_last()) + spans.last().text
    }
}

fn digit_text(d: u16) -> (s: &'static str)
    requires
        d < 10,
    ensures
        s@ == seq![digit(d as nat)],
{
    proof {
        reveal_strlit("0");
        reveal_strlit("1");
        reveal_strlit("2");
        reveal_strlit("3");
        reveal_strlit("4");
        reveal_strlit("5");
        reveal_strlit("6");
        reveal_strlit("7");
        reveal_strlit("8");
        reveal_strlit("9");
    }
    if d == 0 {
        "0"
    } else if d == 1 {
        "1"
    } else if d == 2 {
        "2"
    } else if d == 3 {
        "3"
    } else if d == 4 {
        "4"
    } else if d == 5 {
        "5"
    } else if d == 6 {
        "6"
    } else if d == 7 {
        "7"
    } else if d == 8 {
        "8"
    } else {
        "9"
    }
}

/// Writes `n` in decimal.
pub fn decimal_text(n: u16) -> (s: String)
    ensures
        s@ == decimal(n as nat),
    decreases n,
{
    if n < 10 {
        digit_text(n).to_owned()
    } else {
        let mut s = decimal_text(n / 10);
        s.append(digit_text(n % 10));
        s
    }
}

/// Writes the status line.
pub fn status_text(version: Version, status: u16) -> (s: String)
    ensures
        s@ == status_line(version, status),
{
    let mut s = version.label().to_owned();
    s.append(" ");
    s.append(decimal_text(status).as_str());
    s
}

/// The span for a body that is shown as it came.
pub fn raw_span(body: &str) -> (span: Span)
    ensures
        span@ == verbatim_span(body@),
{
    Span { color: None, text: body.to_owned() }
}

/// `r` by its view.
pub open spec fn span_result_view(r: Result<Span, RenderError>) -> Result<
    SpanView,
    RenderErrorView,
> {
    match r {
        Ok(span) => Ok(span@),
        Err(e) => Err(e@),
    }
}

/// `r` by its view.
pub open spec fn text_result_view(r: Result<String, String>) -> Result<Seq<char>, Seq<char>> {
    match r {
        Ok(t) => Ok(t@),
        Err(e) => Err(e@),
    }
}

/// The span for a body declared as JSON, from what the pretty-printer made
/// of it: its output in cyan, or the error that carries its complaint.
pub fn json_span(pretty: Result<String, String>) -> (r: Result<Span, RenderError>)
    ensures
        span_result_view(r) == reindented_span(text_result_view(pretty)),
{
    match pretty {
        Ok(p) => Ok(Span { color: Some(Color::Cyan), text: p }),
        Err(e) => Err(RenderError::MalformedJsonBody(e)),
    }
}

fn plain_span(text: &str) -> (span: Span)
    ensures
        span@ == plain(text@),
{
    Span { color: None, text: text.to_owned() }
}

/// Lays out a response whose body is shown as `body`.
pub fn lay_out(resp: &HttpResponse, body: Span) -> (spans: Vec<Span>)
    ensures
        span_views(spans@) == layout(resp@, body@),
{
    let mut spans: Vec<Span> = Vec::new();
    spans.push(Span { color: Some(Color::Blue), text: status_text(resp.version, resp.status) });
    spans.push(plain_span("\n"));
    let ghost head = seq![status_span(resp@), plain("\n"@)];
    assert(span_views(spans@) =~= head);
    assert(resp@.headers.take(0) =~= Seq::empty());
    let mut i: usize = 0;
    while i < resp.headers.len()
        invariant
            i <= resp.headers.len(),
            span_views(spans@) =~= head + header_spans(resp@.headers.take(i as int)),
        decreases resp.headers.len() - i,
    {
        let ghost before = span_views(spans@);
        let ghost seen = resp@.headers.take(i as int + 1);
        assert(seen.drop_last() =~= resp@.headers.take(i as int));
        assert(seen.last() == resp.headers@[i as int]@);
        let header = &resp.headers[i];
        spans.push(Span { color: Some(Color::Green), text: header.name.clone() });
        let mut line = ": ".to_owned();
        line.append(header.value.as_str());
        line.append("\n");
        spans.push(Span { color: None, text: line });
        assert(span_views(spans@) =~= before.push(name_span(seen.last())).push(
            value_span(seen.last()),
        ));
        i += 1;
    }
    assert(resp@.headers.take(i as int) =~= resp@.headers);
    spans.push(plain_span("\n"));
    spans.push(body);
    spans.push(plain_span("\n"));
    spans
}

/// `r` by its view.
pub open spec fn render_view(r: Result<Vec<Span>, RenderError>) -> Result<
    Seq<SpanView>,
    RenderErrorView,
> {
    match r {
        Ok(spans) => Ok(span_views(spans@)),
        Err(e) => Err(e@),
    }
}

/// The span for a body that was declared as JSON.
///
/// A body that is no JSON text is turned down and never reaches the
/// pretty-printer. A body that is one is indented anew and shown in cyan.
pub fn json_body(body: &str) -> (r: Result<Span, RenderError>)
    ensures
        span_result_view(r) == json_body_span(body@),
        r is Ok <==> well_formed_json(body@),
        !well_formed_json(body@) ==> r is Err && r->Err_0@ == RenderErrorView::MalformedJsonBody(
            not_well_formed(),
        ),
{
    if is_json(body) {
        json_span(pretty_json(body))
    } else {
        Err(RenderError::MalformedJsonBody("not well formed".to_owned()))
    }
}

/// Renders a response: the status line, the headers, the body.
///
/// A body whose response declares `application/json` is indented anew and
/// shown in cyan; any other body is shown as it came. The result is all of
/// the output or an error, never a part of the output: a `Content-Type`
/// value that is no media type is an error, and so is a body that is
/// declared as JSON and is no JSON text.
pub fn render(resp: &HttpResponse) -> (r: Result<Vec<Span>, RenderError>)
    ensures
        render_view(r) == rendering(resp@),
        r is Ok <==> {
            &&& declared_content_type(resp@.headers) is Some ==> declared_essence(resp@) is Some
            &&& declared_as_json(resp@) ==> well_formed_json(resp@.body)
        },
        declared_content_type(resp@.headers) is Some && declared_essence(resp@) is None ==> r
            is Err && r->Err_0@ == RenderErrorView::InvalidContentType(
            declared_content_type(resp@.headers)->Some_0,
        ),
        declared_as_json(resp@) && !well_formed_json(resp@.body) ==> r is Err && r->Err_0@
            == RenderErrorView::MalformedJsonBody(not_well_formed()),
        r is Ok && !declared_as_json(resp@) ==> span_views(r->Ok_0@) == layout(
            resp@,
            plain(resp@.body),
        ),
        r is Ok && declared_as_json(resp@) ==> pretty_printed(resp@.body) is Ok && span_views(
            r->Ok_0@,
        ) == layout(
            resp@,
            SpanView { color: Some(Color::Cyan), text: pretty_printed(resp@.body)->Ok_0 },
        ),
{
    let declared = resp.content_type();
    let essence = match declared {
        Some(value) => parse_mime_essence(value),
        None => None,
    };
    match plan_body(declared, essence) {
        Err(e) => Err(e),
        Ok(BodyPlan::Verbatim) => Ok(lay_out(resp, raw_span(resp.body.as_str()))),
        Ok(BodyPlan::Reindent) => match json_body(resp.body.as_str()) {
            Err(e) => Err(e),
            Ok(body) => Ok(lay_out(resp, body)),
        },
    }
}

/// The output without its colours: the text of all spans, one after the
/// other.
pub fn plain_text(spans: &Vec<Span>) -> (text: String)
    ensures
        text@ == plain_text_of(span_views(spans@)),
{
    let mut text = String::new();
    let mut i: usize = 0;
    assert(span_views(spans@).take(0) =~= Seq::empty());
    while i < spans.len()
        invariant
            i <= spans.len(),
            text@ == plain_text_of(span_views(spans@).take(i as int)),
        decreases spans.len() - i,
    {
        let ghost seen = span_views(spans@).take(i as int + 1);
        assert(seen.drop_last() =~= span_views(spans@).take(i as int));
        assert(seen.last() == spans@[i as int]@);
        text.append(spans[i].text.as_str());
        i += 1;
    }
    assert(span_views(spans@).take(i as int) =~= span_views(spans@));
    text
}

/// The header lines as text: for each header, in the order given, its name,
/// `: `, its value and the end of the line.
pub open spec fn header_lines(headers: Seq<HeaderView>) -> Seq<char>
    decreases headers.len(),
{
    if headers.len() == 0 {
        Seq::empty()
    } else {
        header_lines(headers.drop_last()) + headers.last().name + ": "@ + headers.last().value
            + "\n"@
    }
}

/// The whole output as text, for a response whose body is shown as `body`.
pub open spec fn plain_layout(resp: ResponseView, body: Seq<char>) -> Seq<char> {
    status_line(resp.version, resp.status) + "\n"@ + header_lines(resp.headers) + "\n"@ + body
        + "\n"@
}

/// Two responses that hold the same values are rendered alike: to the same
/// spans in the same order, or to the same error.
pub proof fn lemma_same_response_same_rendering(a: HttpResponse, b: HttpResponse)
    requires
        a@ == b@,
    ensures
        rendering(a@) == rendering(b@),
        rendering(a@) is Ok ==> plain_text_of(rendering(a@)->Ok_0) == plain_text_of(
            rendering(b@)->Ok_0,
        ),
{
}

/// Where rendering fails, it fails for one of two reasons, and which one is
/// decided by the response alone.
///
/// It fails with `InvalidContentType` exactly where the response has a
/// `Content-Type` header whose first value the media type parser turns down,
/// and the error carries that value. Where the body is declared as JSON and
/// is no JSON text, it fails with `MalformedJsonBody`: such a body is never
/// shown, neither as it came nor indented anew. A response without a
/// `Content-Type` header, and one that declares another media type, is
/// always rendered, with the body as it came.
pub proof fn lemma_rendering_cases(resp: ResponseView)
    ensures
        match declared_content_type(resp.headers) {
            None => rendering(resp) == Ok::<Seq<SpanView>, RenderErrorView>(
                layout(resp, plain(resp.body)),
            ),
            Some(value) => match mime_essence(value) {
                None => rendering(resp) == Err::<Seq<SpanView>, RenderErrorView>(
                    RenderErrorView::InvalidContentType(value),
                ),
                Some(essence) => if essence != json_essence() {
                    rendering(resp) == Ok::<Seq<SpanView>, RenderErrorView>(
                        layout(resp, plain(resp.body)),
                    )
                } else if !well_formed_json(resp.body) {
                    rendering(resp) == Err::<Seq<SpanView>, RenderErrorView>(
                        RenderErrorView::MalformedJsonBody(not_well_formed()),
                    )
                } else {
                    match pretty_printed(resp.body) {
                        Ok(text) => rendering(resp) == Ok::<Seq<SpanView>, RenderErrorView>(
                            layout(resp, SpanView { color: Some(Color::Cyan), text }),
                        ),
                        Err(complaint) => rendering(resp) == Err::<Seq<SpanView>, RenderErrorView>(
                            RenderErrorView::MalformedJsonBody(complaint),
                        ),
                    }
                },
            },
        },
{
}

/// The headers are shown two spans each.
pub proof fn lemma_header_spans_len(headers: Seq<HeaderView>)
    ensures
        header_spans(headers).len() == 2 * headers.len(),
    decreases headers.len(),
{
    if headers.len() > 0 {
        lemma_header_spans_len(headers.drop_last());
    }
}

/// The headers are shown in the order in which they came: the spans of the
/// header at place `i` stand at the places `2 * i` and `2 * i + 1`.
pub proof fn lemma_header_spans_in_order(headers: Seq<HeaderView>, i: int)
    requires
        0 <= i < headers.len(),
    ensures
        header_spans(headers).len() == 2 * headers.len(),
        header_spans(headers)[2 * i] == name_span(headers[i]),
        header_spans(headers)[2 * i + 1] == value_span(headers[i]),
    decreases headers.len(),
{
    lemma_header_spans_len(headers);
    lemma_header_spans_len(headers.drop_last());
    if i < headers.len() - 1 {
        lemma_header_spans_in_order(headers.drop_last(), i);
    }
}

/// The layout holds the status line first, then every header in the order
/// in which it came, then the body, with nothing but the ends of lines in
/// between.
pub proof fn lemma_layout_shape(resp: ResponseView, body: SpanView)
    ensures
        layout(resp, body).len() == 2 * resp.headers.len() + 5,
        layout(resp, body)[0] == status_span(resp),
        layout(resp, body)[1] == plain("\n"@),
        forall|i: int|
            0 <= i < resp.headers.len() ==> {
                &&& #[trigger] layout(resp, body)[2 + 2 * i] == name_span(resp.headers[i])
                &&& layout(resp, body)[3 + 2 * i] == value_span(resp.headers[i])
            },
        layout(resp, body)[2 * resp.headers.len() as int + 2] == plain("\n"@),
        layout(resp, body)[2 * resp.headers.len() as int + 3] == body,
        layout(resp, body)[2 * resp.headers.len() as int + 4] == plain("\n"@),
{
    lemma_header_spans_len(resp.headers);
    assert forall|i: int| 0 <= i < resp.headers.len() implies {
        &&& #[trigger] layout(resp, body)[2 + 2 * i] == name_span(resp.headers[i])
        &&& layout(resp, body)[3 + 2 * i] == value_span(resp.headers[i])
    } by {
        lemma_header_spans_in_order(resp.headers, i);
    }
}

/// The plain text of spans that stand one after the other is the plain text
/// of the first followed by that of the second.
pub proof fn lemma_plain_text_of_concat(a: Seq<SpanView>, b: Seq<SpanView>)
    ensures
        plain_text_of(a + b) == plain_text_of(a) + plain_text_of(b),
    decreases b.len(),
{
    if b.len() == 0 {
        assert(a + b =~= a);
    } else {
        assert((a + b).drop_last() =~= a + b.drop_last());
        lemma_plain_text_of_concat(a, b.drop_last());
    }
}

proof fn lemma_plain_text_of_header_spans(headers: Seq<HeaderView>)
    ensures
        plain_text_of(header_spans(headers)) == header_lines(headers),
    decreases headers.len(),
{
    if headers.len() > 0 {
        let front = header_spans(headers.drop_last());
        let last = headers.last();
        lemma_plain_text_of_header_spans(headers.drop_last());
        let named = front.push(name_span(last));
        let whole = named.push(value_span(last));
        assert(named.drop_last() =~= front);
        assert(whole.drop_last() =~= named);
        assert(plain_text_of(named) == plain_text_of(front) + last.name);
        assert(plain_text_of(whole) == plain_text_of(named) + value_span(last).text);
        assert(plain_text_of(whole) =~= header_lines(headers));
    }
}

/// Without its colours the layout reads: the status line, the header lines,
/// an empty line, the body, the end of the line.
pub proof fn lemma_plain_text_of_layout(resp: ResponseView, body: SpanView)
    ensures
        plain_text_of(layout(resp, body)) == plain_layout(resp, body.text),
{
    let head = seq![status_span(resp), plain("\n"@)];
    let tail = seq![plain("\n"@), body, plain("\n"@)];
    lemma_plain_text_of_concat(head + header_spans(resp.headers), tail);
    lemma_plain_text_of_concat(head, header_spans(resp.headers));
    lemma_plain_text_of_header_spans(resp.headers);
    assert(plain_text_of(head) =~= status_line(resp.version, resp.status) + "\n"@) by {
        assert(head.drop_last() =~= seq![status_span(resp)]);
        assert(seq![status_span(resp)].drop_last() =~= Seq::<SpanView>::empty());
        reveal_with_fuel(plain_text_of, 3);
    }
    assert(plain_text_of(tail) =~= "\n"@ + body.text + "\n"@) by {
        assert(tail.drop_last() =~= seq![plain("\n"@), body]);
        assert(seq![plain("\n"@), body].drop_last() =~= seq![plain("\n"@)]);
        assert(seq![plain("\n"@)].drop_last() =~= Seq::<SpanView>::empty());
        reveal_with_fuel(plain_text_of, 4);
    }
    assert(plain_text_of(layout(resp, body)) =~= plain_layout(resp, body.text));
}

} // verus!
