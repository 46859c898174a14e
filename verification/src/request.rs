//! From a command to the request that it stands for.

use vstd::prelude::*;
use crate::command::{pair_views, Command, CommandView};
use crate::pair::{KvPair, KvPairView};
use crate::text::{first_index_of, is_first, lemma_first_index};

verus! {

/// The request methods that the commands use.
#[derive(Debug, Clone, Copy, PartialEq, Eq, Structural)]
pub enum Method {
    Get,
    Post,
}

/// One request, ready to be sent.
#[derive(Debug, Clone)]
pub struct Request {
    pub method: Method,
    /// Where to send it.
    pub url: String,
    /// The members of the JSON object to send as the body, each key once.
    pub json: Option<Vec<KvPair>>,
}

/// What a [`Request`] holds, as sequences.
pub struct RequestView {
    pub method: Method,
    pub url: Seq<char>,
    pub json: Option<Seq<KvPairView>>,
}

impl View for Request {
    type V = RequestView;

    open spec fn view(&self) -> RequestView {
        RequestView {
            method: self.method,
            url: self.url@,
            json: match self.json {
                Some(fields) => Some(pair_views(fields@)),
                None => None,
            },
        }
    }
}

/// The media type that a request declares for its body: `application/json`
/// where it has a body, none where it has none.
pub open spec fn content_type_of(request: RequestView) -> Option<Seq<char>> {
    match request.json {
        Some(fields) => Some("application/json"@),
        None => None,
    }
}

impl Request {
    /// The value of the `Content-Type` header to send, if any.
    pub fn content_type(&self) -> (value: Option<&'static str>)
        ensures
            match value {
                Some(v) => content_type_of(self@) == Some(v@),
                None => content_type_of(self@) is None,
            },
    {
        match &self.json {
            Some(_) => Some("application/json"),
            None => None,
        }
    }
}

/// The keys of `fields`, in order.
pub open spec fn keys(fields: Seq<KvPairView>) -> Seq<Seq<char>> {
    Seq::new(fields.len(), |i: int| fields[i].k)
}

/// `fields` with `p` written into it: in the place of the member that has
/// `p`'s key, or at the end where no member has it.
pub open spec fn upsert(fields: Seq<KvPairView>, p: KvPairView) -> Seq<KvPairView> {
    if keys(fields).contains(p.k) {
        fields.update(first_index_of(keys(fields), p.k), p)
    } else {
        fields.push(p)
    }
}

/// The members of the object that `pairs` describe: the pairs written one
/// after the other, so that a key keeps the place of its first pair and the
/// value of its last.
pub open spec fn merged(pairs: Seq<KvPairView>) -> Seq<KvPairView>
    decreases pairs.len(),
{
    if pairs.len() == 0 {
        Seq::empty()
    } else {
        upsert(merged(pairs.drop_last()), pairs.last())
    }
}

/// The mapping from key to value that results from setting the pairs one
/// after the other: the last pair of a key decides.
pub open spec fn body_map(pairs: Seq<KvPairView>) -> Map<Seq<char>, Seq<char>>
    decreases pairs.len(),
{
    if pairs.len() == 0 {
        Map::empty()
    } else {
        body_map(pairs.drop_last()).insert(pairs.last().k, pairs.last().v)
    }
}

/// The request that `command` stands for.
pub open spec fn request_of(command: CommandView) -> RequestView {
    match command {
        CommandView::Get { url } => RequestView { method: Method::Get, url, json: None },
        CommandView::Post { url, body } => RequestView {
            method: Method::Post,
            url,
            json: Some(merged(body)),
        },
    }
}

/// The mapping of a sequence of pairs holds exactly the keys of the pairs.
pub proof fn lemma_body_map_domain(pairs: Seq<KvPairView>)
    ensures
        forall|k: Seq<char>| body_map(pairs).dom().contains(k) <==> keys(pairs).contains(k),
    decreases pairs.len(),
{
    if pairs.len() > 0 {
        let front = pairs.drop_last();
        lemma_body_map_domain(front);
        assert forall|k: Seq<char>| body_map(pairs).dom().contains(k) <==> keys(pairs).contains(
            k,
        ) by {
            if keys(pairs).contains(k) {
                let i = choose|i: int| 0 <= i < keys(pairs).len() && keys(pairs)[i] == k;
                if i < front.len() {
                    assert(keys(front)[i] == k);
                }
            }
            if keys(front).contains(k) {
                let i = choose|i: int| 0 <= i < keys(front).len() && keys(front)[i] == k;
                assert(keys(pairs)[i] == k);
            }
            if k == pairs.last().k {
                assert(keys(pairs)[pairs.len() - 1] == k);
            }
        }
    }
}

/// Last write wins: a key is mapped to the value of the last pair that has it.
pub proof fn lemma_last_write_wins(pairs: Seq<KvPairView>, i: int)
    requires
        0 <= i < pairs.len(),
        forall|j: int| i < j < pairs.len() ==> pairs[j].k != pairs[i].k,
    ensures
        body_map(pairs).dom().contains(pairs[i].k),
        body_map(pairs)[pairs[i].k] == pairs[i].v,
    decreases pairs.len(),
{
    if i < pairs.len() - 1 {
        let front = pairs.drop_last();
        assert(front[i] == pairs[i]);
        lemma_last_write_wins(front, i);
    }
}

/// Writing a pair into members with distinct keys keeps the keys distinct
/// and sets the pair's key to its value in the mapping, nothing else.
pub proof fn lemma_upsert(fields: Seq<KvPairView>, p: KvPairView)
    requires
        keys(fields).no_duplicates(),
    ensures
        keys(upsert(fields, p)).no_duplicates(),
        body_map(upsert(fields, p)) == body_map(fields).insert(p.k, p.v),
{
    let out = upsert(fields, p);
    if keys(fields).contains(p.k) {
        lemma_first_index(keys(fields), p.k);
        let at = first_index_of(keys(fields), p.k);
        assert(keys(out) =~= keys(fields));
        lemma_body_map_domain(fields);
        lemma_body_map_domain(out);
        assert forall|k: Seq<char>| #[trigger]
            body_map(out).dom().contains(k) implies body_map(out)[k] == body_map(fields).insert(
            p.k,
            p.v,
        )[k] by {
            assert(keys(out).contains(k));
            let j = choose|j: int| 0 <= j < keys(out).len() && keys(out)[j] == k;
            assert forall|l: int| j < l < out.len() implies out[l].k != out[j].k by {
                assert(keys(out)[l] != keys(out)[j]);
            }
            lemma_last_write_wins(out, j);
            if j != at {
                assert(keys(fields)[j] != keys(fields)[at]);
                assert forall|l: int| j < l < fields.len() implies fields[l].k != fields[j].k by {
                    assert(keys(fields)[l] != keys(fields)[j]);
                }
                lemma_last_write_wins(fields, j);
            }
        }
        assert forall|k: Seq<char>|
            body_map(out).dom().contains(k) <==> body_map(fields).insert(p.k, p.v).dom().contains(
                k,
            ) by {
            assert(keys(out).contains(k) <==> body_map(out).dom().contains(k));
            assert(keys(fields).contains(k) <==> body_map(fields).dom().contains(k));
        }
        assert(body_map(out) =~= body_map(fields).insert(p.k, p.v));
    } else {
        assert(out.drop_last() =~= fields);
        assert forall|i: int, j: int|
            0 <= i < keys(out).len() && 0 <= j < keys(out).len() && i != j implies keys(out)[i]
            != keys(out)[j] by {
            if i < fields.len() && j < fields.len() {
                assert(keys(fields)[i] != keys(fields)[j]);
            } else if i < fields.len() {
                assert(keys(fields)[i] == keys(out)[i]);
            } else {
                assert(keys(fields)[j] == keys(out)[j]);
            }
        }
    }
}

/// The members that a sequence of pairs is merged into have distinct keys,
/// and they map each key to the value of the last pair that has it.
pub proof fn lemma_merged(pairs: Seq<KvPairView>)
    ensures
        keys(merged(pairs)).no_duplicates(),
        body_map(merged(pairs)) == body_map(pairs),
    decreases pairs.len(),
{
    if pairs.len() > 0 {
        lemma_merged(pairs.drop_last());
        lemma_upsert(merged(pairs.drop_last()), pairs.last());
    }
}

/// The place of the member of `fields` whose key is `key`, if there is one.
fn find_key(fields: &Vec<KvPair>, key: &String) -> (r: Option<usize>)
    ensures
        match r {
            Some(i) => is_first(keys(pair_views(fields@)), key@, i as int),
            None => !keys(pair_views(fields@)).contains(key@),
        },
{
    let mut i: usize = 0;
    while i < fields.len()
        invariant
            i <= fields.len(),
            forall|j: int| 0 <= j < i ==> keys(pair_views(fields@))[j] != key@,
        decreases fields.len() - i,
    {
        if fields[i].k == *key {
            assert(keys(pair_views(fields@))[i as int] == key@);
            return Some(i);
        }
        i += 1;
    }
    None
}

/// Merges the pairs of a body into the members of one JSON object: a key
/// that comes twice is kept once, where it first stood, with the value that
/// came last.
pub fn merge_pairs(pairs: &Vec<KvPair>) -> (fields: Vec<KvPair>)
    ensures
        pair_views(fields@) == merged(pair_views(pairs@)),
        keys(pair_views(fields@)).no_duplicates(),
        body_map(pair_views(fields@)) == body_map(pair_views(pairs@)),
{
    let mut fields: Vec<KvPair> = Vec::new();
    let mut i: usize = 0;
    assert(pair_views(pairs@).take(0) =~= Seq::empty());
    while i < pairs.len()
        invariant
            i <= pairs.len(),
            pair_views(fields@) =~= merged(pair_views(pairs@).take(i as int)),
        decreases pairs.len() - i,
    {
        let ghost before = pair_views(fields@);
        let ghost seen = pair_views(pairs@).take(i as int + 1);
        assert(seen.drop_last() =~= pair_views(pairs@).take(i as int));
        assert(seen.last() == pairs@[i as int]@);
        let p = KvPair { k: pairs[i].k.clone(), v: pairs[i].v.clone() };
        match find_key(&fields, &p.k) {
            Some(at) => {
                proof {
                    lemma_first_index(keys(before), p.k@);
                }
                fields.set(at, p);
                assert(pair_views(fields@) =~= before.update(at as int, p@));
            },
            None => {
                fields.push(p);
                assert(pair_views(fields@) =~= before.push(p@));
            },
        }
        i += 1;
    }
    assert(pair_views(pairs@).take(i as int) =~= pair_views(pairs@));
    proof {
        lemma_merged(pair_views(pairs@));
    }
    fields
}

impl Command {
    /// The one request that the command stands for.
    ///
    /// `Get` fetches the URL and sends no body. `Post` sends to the URL one
    /// JSON object that holds the pairs of the body, merged as
    /// [`merge_pairs`] does.
    pub fn request(&self) -> (r: Request)
        ensures
            r@ == request_of(self@),
            match r.json {
                Some(fields) => {
                    &&& self is Post
                    &&& keys(pair_views(fields@)).no_duplicates()
                    &&& body_map(pair_views(fields@)) == body_map(pair_views(self->Post_body@))
                },
                None => self is Get,
            },
    {
        match self {
            Command::Get { url } => Request {
                method: Method::Get,
                url: url.as_str().to_owned(),
                json: None,
            },
            Command::Post { url, body } => Request {
                method: Method::Post,
                url: url.as_str().to_owned(),
                json: Some(merge_pairs(body)),
            },
        }
    }
}

} // verus!
