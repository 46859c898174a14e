//! The two commands.

use vstd::prelude::*;
use crate::pair::{KvPair, KvPairView};
use crate::url::ValidatedUrl;

verus! {

/// What the user asked for: one request, of one of two kinds.
#[derive(Debug, Clone)]
pub enum Command {
    /// Fetch `url`.
    Get { url: ValidatedUrl },
    /// Send the pairs of `body` to `url` as one JSON object.
    Post { url: ValidatedUrl, body: Vec<KvPair> },
}

/// What a [`Command`] holds, as sequences.
pub enum CommandView {
    Get { url: Seq<char> },
    Post { url: Seq<char>, body: Seq<KvPairView> },
}

/// The pairs of `pairs`, each by its view.
pub open spec fn pair_views(pairs: Seq<KvPair>) -> Seq<KvPairView> {
    Seq::new(pairs.len(), |i: int| pairs[i]@)
}

impl View for Command {
    type V = CommandView;

    open spec fn view(&self) -> CommandView {
        match self {
            Command::Get { url } => CommandView::Get { url: url@ },
            Command::Post { url, body } => CommandView::Post {
                url: url@,
                body: pair_views(body@),
            },
        }
    }
}

impl Command {
    /// The URL is a well-formed absolute URL.
    pub open spec fn wf(&self) -> bool {
        match self {
            Command::Get { url } => url.wf(),
            Command::Post { url, body } => url.wf(),
        }
    }

    /// The URL that the command names.
    pub fn url(&self) -> (u: &ValidatedUrl)
        ensures
            u@ == match self@ {
                CommandView::Get { url } => url,
                CommandView::Post { url, body } => url,
            },
            self.wf() ==> u.wf(),
    {
        match self {
            Command::Get { url } => url,
            Command::Post { url, body: _ } => url,
        }
    }
}

} // verus!
