//! Colours for the terminal.

use vstd::prelude::*;
use colored::Colorize;
use crate::render::{
    decimal, plain_text_of, span_views, status_line, status_span, Color, Span, SpanView,
};
use crate::response::{version_label, ResponseView, Version};

verus! {

/// The escape sequence that switches `color` on.
pub open spec fn color_on(color: Color) -> Seq<char> {
    match color {
        Color::Blue => "\x1b[34m"@,
        Color::Green => "\x1b[32m"@,
        Color::Cyan => "\x1b[36m"@,
    }
}

/// The escape sequence that switches all colours off.
pub open spec fn colors_off() -> Seq<char> {
    "\x1b[0m"@
}

/// `text` between the escape sequences that switch `color` on and off.
pub open spec fn painted(color: Color, text: Seq<char>) -> Seq<char> {
    color_on(color) + text + colors_off()
}

/// `text` holds the escape sequence that switches all colours off.
pub open spec fn holds_reset(text: Seq<char>) -> bool {
    exists|i: int|
        0 <= i && i + colors_off().len() <= text.len() && #[trigger] text.subrange(
            i,
            i + colors_off().len(),
        ) == colors_off()
}

/// `shown` is a way in which `span` may reach the terminal.
///
/// A span without colour is shown as it is. A span with a colour is shown
/// either as it is or between the escape sequences of its colour, as the
/// terminal and the environment ask; of a text that itself holds the
/// sequence that switches the colours off nothing is said.
pub open spec fn may_show_as(span: SpanView, shown: Seq<char>) -> bool {
    match span.color {
        None => shown == span.text,
        Some(color) => !holds_reset(span.text) ==> (shown == span.text || shown == painted(
            color,
            span.text,
        )),
    }
}

/// `pieces` are, one for one, ways in which `spans` may reach the terminal.
pub open spec fn may_show_all_as(spans: Seq<SpanView>, pieces: Seq<Seq<char>>) -> bool {
    &&& pieces.len() == spans.len()
    &&& forall|i: int| 0 <= i < spans.len() ==> may_show_as(spans[i], #[trigger] pieces[i])
}

/// The pieces, one after the other.
pub open spec fn joined_pieces(pieces: Seq<Seq<char>>) -> Seq<char>
    decreases pieces.len(),
{
    if pieces.len() == 0 {
        Seq::empty()
    } else {
        joined_pieces(pieces.drop_last()) + pieces.last()
    }
}

/// The texts of `pieces`, each by its view.
pub open spec fn piece_views(pieces: Seq<String>) -> Seq<Seq<char>> {
    Seq::new(pieces.len(), |i: int| pieces[i]@)
}

/// Gives `text` the foreground colour `color` with `colored`'s
/// `Colorize::color` and writes the `ColoredString` out with `to_string`.
///
/// Trusted: `colored` decides by the environment and the terminal whether
/// it colours at all. Where it does not, it writes the text as it is; where
/// it does, it writes the escape sequence of the colour, the text, and the
/// reset sequence. It works reset sequences that stand inside the text over,
/// so the claim is made only of a text that holds none.
#[verifier::external_body]
fn colorize(text: &str, color: Color) -> (shown: String)
    ensures
        !holds_reset(text@) ==> (shown@ == text@ || shown@ == painted(color, text@)),
{
    let hue = match color {
        Color::Blue => colored::Color::Blue,
        Color::Green => colored::Color::Green,
        Color::Cyan => colored::Color::Cyan,
    };
    text.color(hue).to_string()
}

/// Writes one span as the terminal is to receive it.
pub fn paint_span(span: &Span) -> (shown: String)
    ensures
        may_show_as(span@, shown@),
{
    match span.color {
        None => span.text.clone(),
        Some(color) => colorize(span.text.as_str(), color),
    }
}

/// Writes each span as the terminal is to receive it.
pub fn paint(spans: &Vec<Span>) -> (pieces: Vec<String>)
    ensures
        may_show_all_as(span_views(spans@), piece_views(pieces@)),
{
    let mut pieces: Vec<String> = Vec::new();
    let mut i: usize = 0;
    while i < spans.len()
        invariant
            i <= spans.len(),
            pieces.len() == i,
            forall|j: int|
                0 <= j < i ==> may_show_as(span_views(spans@)[j], #[trigger] piece_views(pieces@)[j]),
        decreases spans.len() - i,
    {
        let shown = paint_span(&spans[i]);
        let ghost before = piece_views(pieces@);
        pieces.push(shown);
        assert(piece_views(pieces@) =~= before.push(shown@));
        i += 1;
    }
    pieces
}

/// Puts the pieces one after the other.
pub fn join(pieces: &Vec<String>) -> (text: String)
    ensures
        text@ == joined_pieces(piece_views(pieces@)),
{
    let mut text = String::new();
    let mut i: usize = 0;
    assert(piece_views(pieces@).take(0) =~= Seq::empty());
    while i < pieces.len()
        invariant
            i <= pieces.len(),
            text@ == joined_pieces(piece_views(pieces@).take(i as int)),
        decreases pieces.len() - i,
    {
        let ghost seen = piece_views(pieces@).take(i as int + 1);
        assert(seen.drop_last() =~= piece_views(pieces@).take(i as int));
        assert(seen.last() == pieces@[i as int]@);
        text.append(pieces[i].as_str());
        i += 1;
    }
    assert(piece_views(pieces@).take(i as int) =~= piece_views(pieces@));
    text
}

/// Writes the output as the terminal is to receive it: every span in a way
/// in which it may be shown, one after the other.
pub fn to_terminal(spans: &Vec<Span>) -> (text: String)
    ensures
        exists|pieces: Seq<Seq<char>>| #[trigger]
            may_show_all_as(span_views(spans@), pieces) && text@ == joined_pieces(pieces),
{
    let pieces = paint(spans);
    join(&pieces)
}

/// Where every span is shown as it is, the terminal receives the plain text
/// of the output.
pub proof fn lemma_unpainted_is_plain(spans: Seq<SpanView>, pieces: Seq<Seq<char>>)
    requires
        pieces.len() == spans.len(),
        forall|i: int| 0 <= i < spans.len() ==> pieces[i] == spans[i].text,
    ensures
        joined_pieces(pieces) == plain_text_of(spans),
    decreases spans.len(),
{
    if spans.len() > 0 {
        lemma_unpainted_is_plain(spans.drop_last(), pieces.drop_last());
    }
}

/// A text without an escape character holds no escape sequence, so none
/// that switches the colours off.
pub proof fn lemma_no_escape_no_reset(text: Seq<char>)
    requires
        !text.contains('\x1b'),
    ensures
        !holds_reset(text),
{
    reveal_strlit("\x1b[0m");
    if holds_reset(text) {
        let i = choose|i: int|
            0 <= i && i + colors_off().len() <= text.len() && #[trigger] text.subrange(
                i,
                i + colors_off().len(),
            ) == colors_off();
        assert(text.subrange(i, i + colors_off().len())[0] == '\x1b');
        assert(text[i] == '\x1b');
    }
}

proof fn lemma_decimal_has_no_escape(n: nat)
    ensures
        !decimal(n).contains('\x1b'),
    decreases n,
{
    if n >= 10 {
        lemma_decimal_has_no_escape(n / 10);
        let front = decimal(n / 10);
        assert forall|i: int| 0 <= i < decimal(n).len() implies decimal(n)[i] != '\x1b' by {
            if i < front.len() {
                assert(front.contains(front[i]));
            }
        }
    }
}

proof fn lemma_label_has_no_escape(version: Version)
    ensures
        !version_label(version).contains('\x1b'),
{
    reveal_strlit("HTTP/0.9");
    reveal_strlit("HTTP/1.0");
    reveal_strlit("HTTP/1.1");
    reveal_strlit("HTTP/2.0");
    reveal_strlit("HTTP/3.0");
}

/// A status line holds no escape character, so a status line reaches the
/// terminal either as it is or between the escape sequences of its colour.
pub proof fn lemma_status_line_shown(resp: ResponseView, shown: Seq<char>)
    requires
        may_show_as(status_span(resp), shown),
    ensures
        !status_line(resp.version, resp.status).contains('\x1b'),
        shown == status_line(resp.version, resp.status) || shown == painted(
            Color::Blue,
            status_line(resp.version, resp.status),
        ),
{
    let label = version_label(resp.version);
    let number = decimal(resp.status as nat);
    let line = status_line(resp.version, resp.status);
    lemma_label_has_no_escape(resp.version);
    lemma_decimal_has_no_escape(resp.status as nat);
    reveal_strlit(" ");
    assert forall|i: int| 0 <= i < line.len() implies line[i] != '\x1b' by {
        if i < label.len() {
            assert(label.contains(label[i]));
        } else if i >= label.len() + 1 {
            assert(number.contains(number[i - label.len() - 1]));
        }
    }
    lemma_no_escape_no_reset(line);
}

} // verus!
