//! The core of a small command-line HTTP client: it reads `key=value`
//! arguments and URLs, decides the one request a command stands for, and lays
//! a received response out for the terminal.
//!
//! Everything here works on plain values. Sending the request and writing the
//! output are left to the program around this library.

pub mod text;
pub mod pair;
pub mod url;
pub mod command;
pub mod request;
pub mod response;
pub mod media;
pub mod json;
pub mod render;
pub mod terminal;

pub use pair::{parse_kv_pair, KvPair, KvPairView, ParseError, ParseErrorView};
pub use url::{parse_url, url_from_verdict, ValidatedUrl};
pub use command::{Command, CommandView};
pub use request::{merge_pairs, Method, Request, RequestView};
pub use response::{eq_ignore_ascii_case, Header, HeaderView, HttpResponse, ResponseView, Version};
pub use media::{plan_body, BodyPlan, RenderError, RenderErrorView};
pub use json::is_json;
pub use render::{
    decimal_text, json_body, json_span, lay_out, plain_text, raw_span, render, status_text, Color,
    Span, SpanView,
};
pub use terminal::{join, paint, paint_span, to_terminal};
