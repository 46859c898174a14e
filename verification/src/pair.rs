//! `key=value` arguments.

use vstd::prelude::*;
use crate::text::{find_char, first_index_of, is_first, lemma_first_index};

verus! {

/// One `key=value` argument, split at its first `=`.
#[derive(Debug, Clone)]
pub struct KvPair {
    pub k: String,
    pub v: String,
}

impl PartialEq for KvPair {
    fn eq(&self, other: &KvPair) -> (same: bool) {
        self.k == other.k && self.v == other.v
    }
}

impl vstd::std_specs::cmp::PartialEqSpecImpl for KvPair {
    open spec fn obeys_eq_spec() -> bool {
        true
    }

    open spec fn eq_spec(&self, other: &KvPair) -> bool {
        self.k@ == other.k@ && self.v@ == other.v@
    }
}

impl Eq for KvPair {}

/// What a [`KvPair`] holds, as sequences of characters.
pub struct KvPairView {
    pub k: Seq<char>,
    pub v: Seq<char>,
}

impl View for KvPair {
    type V = KvPairView;

    open spec fn view(&self) -> KvPairView {
        KvPairView { k: self.k@, v: self.v@ }
    }
}

/// Why an argument was turned down.
#[derive(Debug, Clone, PartialEq, Eq)]
pub enum ParseError {
    /// The argument holds no `=`; it is carried along.
    MalformedPair(String),
    /// The argument is not a well-formed absolute URL; it is carried along.
    InvalidUrl(String),
}

/// What a [`ParseError`] holds, as sequences of characters.
pub enum ParseErrorView {
    MalformedPair(Seq<char>),
    InvalidUrl(Seq<char>),
}

impl View for ParseError {
    type V = ParseErrorView;

    open spec fn view(&self) -> ParseErrorView {
        match self {
            ParseError::MalformedPair(t) => ParseErrorView::MalformedPair(t@),
            ParseError::InvalidUrl(t) => ParseErrorView::InvalidUrl(t@),
        }
    }
}

/// What is said of an argument that was turned down.
pub open spec fn parse_error_message(e: ParseErrorView) -> Seq<char> {
    match e {
        ParseErrorView::MalformedPair(t) => "not a key=value pair: "@ + t,
        ParseErrorView::InvalidUrl(t) => "not a valid URL: "@ + t,
    }
}

impl ParseError {
    /// The error in words, with the argument that was turned down.
    pub fn message(&self) -> (m: String)
        ensures
            m@ == parse_error_message(self@),
    {
        match self {
            ParseError::MalformedPair(t) => {
                let mut m = "not a key=value pair: ".to_owned();
                m.append(t.as_str());
                m
            },
            ParseError::InvalidUrl(t) => {
                let mut m = "not a valid URL: ".to_owned();
                m.append(t.as_str());
                m
            },
        }
    }
}

/// The pair that `token` stands for: the text before its first `=` and the
/// text after it. A token without `=` stands for none.
pub open spec fn pair_of(token: Seq<char>) -> Option<KvPairView> {
    if token.contains('=') {
        let i = first_index_of(token, '=');
        Some(KvPairView { k: token.take(i), v: token.skip(i + 1) })
    } else {
        None
    }
}

impl KvPair {
    /// Reads one `key=value` argument.
    ///
    /// The key is all that stands before the first `=`, the value all that
    /// stands after it, further `=` included; either may be empty. An
    /// argument without `=` is handed back inside the error.
    pub fn from_str(s: &str) -> (r: Result<KvPair, ParseError>)
        ensures
            match pair_of(s@) {
                Some(p) => r is Ok && r->Ok_0@ == p,
                None => r is Err && r->Err_0@ == ParseErrorView::MalformedPair(s@),
            },
            r is Ok <==> s@.contains('='),
    {
        match find_char(s, '=') {
            Some(i) => {
                proof {
                    lemma_first_index(s@, '=');
                }
                let n = s.unicode_len();
                let k = s.substring_char(0, i).to_owned();
                let v = s.substring_char(i + 1, n).to_owned();
                assert(k@ == s@.take(i as int));
                assert(v@ == s@.skip(i as int + 1));
                Ok(KvPair { k, v })
            },
            None => Err(ParseError::MalformedPair(s.to_owned())),
        }
    }
}

/// Reads one `key=value` argument, as [`KvPair::from_str`] does.
pub fn parse_kv_pair(s: &str) -> (r: Result<KvPair, ParseError>)
    ensures
        match pair_of(s@) {
            Some(p) => r is Ok && r->Ok_0@ == p,
            None => r is Err && r->Err_0@ == ParseErrorView::MalformedPair(s@),
        },
        r is Ok <==> s@.contains('='),
{
    KvPair::from_str(s)
}

/// The text that `key=value` is written as.
pub open spec fn joined(k: Seq<char>, v: Seq<char>) -> Seq<char> {
    k + seq!['='] + v
}

/// A token that holds no `=` stands for no pair.
pub proof fn lemma_no_separator_no_pair(token: Seq<char>)
    requires
        !token.contains('='),
    ensures
        pair_of(token) is None,
{
}

/// Writing a key without `=` and a value as `key=value` and reading that
/// back gives the same key and value; so `k=` gives the empty value.
pub proof fn lemma_pair_of_joined(k: Seq<char>, v: Seq<char>)
    requires
        !k.contains('='),
    ensures
        pair_of(joined(k, v)) == Some(KvPairView { k, v }),
        pair_of(joined(k, Seq::empty())) == Some(KvPairView { k, v: Seq::empty() }),
{
    lemma_joined_splits(k, v);
    lemma_joined_splits(k, Seq::empty());
}

proof fn lemma_joined_splits(k: Seq<char>, v: Seq<char>)
    requires
        !k.contains('='),
    ensures
        pair_of(joined(k, v)) == Some(KvPairView { k, v }),
{
    let t = joined(k, v);
    let n = k.len() as int;
    assert(t[n] == '=');
    assert forall|j: int| 0 <= j < n implies t[j] != '=' by {
        assert(t[j] == k[j]);
    }
    assert(is_first(t, '=', n));
    lemma_first_index(t, '=');
    assert(t.take(n) =~= k);
    assert(t.skip(n + 1) =~= v);
}

/// What was read, written back as `key=value`, is the argument itself, and
/// the key holds no `=`.
pub proof fn lemma_pair_rejoins(token: Seq<char>)
    requires
        token.contains('='),
    ensures
        pair_of(token) is Some,
        joined(pair_of(token)->Some_0.k, pair_of(token)->Some_0.v) == token,
        !pair_of(token)->Some_0.k.contains('='),
{
    lemma_first_index(token, '=');
    let i = first_index_of(token, '=');
    assert(joined(token.take(i), token.skip(i + 1)) =~= token);
}

} // verus!
