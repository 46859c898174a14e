//! What a declared media type asks of the body.

use vstd::prelude::*;

verus! {

/// The essence (`type/subtype`, without parameters) that the `mime` crate
/// reads out of a `Content-Type` value, or `None` where the crate does not
/// accept the value as a media type.
pub uninterp spec fn mime_essence(value: Seq<char>) -> Option<Seq<char>>;

/// Parses `value` with `mime::Mime`'s `FromStr` and takes `essence_str()` of
/// what came out.
///
/// Trusted: both depend on the characters of `value` alone, so the outcome
/// is given the name [`mime_essence`]. Nothing is claimed about which values
/// the crate accepts or what essence it finds.
#[verifier::external_body]
pub(crate) fn parse_mime_essence(value: &str) -> (essence: Option<String>)
    ensures
        match essence {
            Some(e) => mime_essence(value@) == Some(e@),
            None => mime_essence(value@) is None,
        },
{
    match value.parse::<mime::Mime>() {
        Ok(m) => Some(m.essence_str().to_string()),
        Err(_) => None,
    }
}

/// What is done with a body before it is shown.
#[derive(Debug, Clone, Copy, PartialEq, Eq, Structural)]
pub enum BodyPlan {
    /// Show it as it came.
    Verbatim,
    /// Show it as JSON, indented anew.
    Reindent,
}

/// Why a response cannot be shown.
#[derive(Debug, Clone, PartialEq, Eq)]
pub enum RenderError {
    /// The `Content-Type` value, carried along, is no media type.
    InvalidContentType(String),
    /// The body was declared as JSON and is no JSON text; what is wrong with
    /// it is carried along.
    MalformedJsonBody(String),
}

/// What a [`RenderError`] holds, as sequences of characters.
pub enum RenderErrorView {
    InvalidContentType(Seq<char>),
    MalformedJsonBody(Seq<char>),
}

impl View for RenderError {
    type V = RenderErrorView;

    open spec fn view(&self) -> RenderErrorView {
        match self {
            RenderError::InvalidContentType(t) => RenderErrorView::InvalidContentType(t@),
            RenderError::MalformedJsonBody(t) => RenderErrorView::MalformedJsonBody(t@),
        }
    }
}

/// What is said of a response that cannot be shown.
pub open spec fn render_error_message(e: RenderErrorView) -> Seq<char> {
    match e {
        RenderErrorView::InvalidContentType(t) => "not a media type: "@ + t,
        RenderErrorView::MalformedJsonBody(t) => "malformed JSON body: "@ + t,
    }
}

impl RenderError {
    /// The error in words, with what it carries.
    pub fn message(&self) -> (m: String)
        ensures
            m@ == render_error_message(self@),
    {
        match self {
            RenderError::InvalidContentType(t) => {
                let mut m = "not a media type: ".to_owned();
                m.append(t.as_str());
                m
            },
            RenderError::MalformedJsonBody(t) => {
                let mut m = "malformed JSON body: ".to_owned();
                m.append(t.as_str());
                m
            },
        }
    }
}

/// What is wrong with a body that was declared as JSON and is not well
/// formed.
pub open spec fn not_well_formed() -> Seq<char> {
    "not well formed"@
}

/// The essence that marks a body as JSON.
pub open spec fn json_essence() -> Seq<char> {
    "application/json"@
}

/// The plan for a body whose response declares the media type `declared`
/// (the `Content-Type` value, if any), of which the media type parser made
/// `essence`.
///
/// Without a declaration the body is shown as it came. A declaration that
/// is no media type is an error. Else the body is indented anew exactly
/// where the essence is `application/json`.
pub open spec fn plan_for(declared: Option<Seq<char>>, essence: Option<Seq<char>>) -> Result<
    BodyPlan,
    RenderErrorView,
> {
    match declared {
        None => Ok(BodyPlan::Verbatim),
        Some(value) => match essence {
            None => Err(RenderErrorView::InvalidContentType(value)),
            Some(e) => if e == json_essence() {
                Ok(BodyPlan::Reindent)
            } else {
                Ok(BodyPlan::Verbatim)
            },
        },
    }
}

/// `r` by its view.
pub open spec fn plan_view(r: Result<BodyPlan, RenderError>) -> Result<BodyPlan, RenderErrorView> {
    match r {
        Ok(plan) => Ok(plan),
        Err(e) => Err(e@),
    }
}

/// `o` by its view.
pub open spec fn text_view(o: Option<String>) -> Option<Seq<char>> {
    match o {
        Some(t) => Some(t@),
        None => None,
    }
}

/// Decides what to do with a body, from the `Content-Type` value of its
/// response, if any, and from what the media type parser made of that value.
pub fn plan_body(declared: Option<&str>, essence: Option<String>) -> (r: Result<
    BodyPlan,
    RenderError,
>)
    ensures
        plan_view(r) == plan_for(
            match declared {
                Some(v) => Some(v@),
                None => None,
            },
            text_view(essence),
        ),
{
    match declared {
        None => Ok(BodyPlan::Verbatim),
        Some(value) => match essence {
            None => Err(RenderError::InvalidContentType(value.to_owned())),
            Some(e) => {
                let json = "application/json".to_owned();
                if e == json {
                    Ok(BodyPlan::Reindent)
                } else {
                    Ok(BodyPlan::Verbatim)
                }
            },
        },
    }
}

} // verus!
