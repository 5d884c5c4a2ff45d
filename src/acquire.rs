//! Where a post's text comes from: the linked article first, the discussion
//! page itself as the fallback or when nothing is linked.

use vstd::prelude::*;
use crate::poll::Hit;
use crate::text::{lemma_tokens_nonempty, joined, normalize_whitespace, tokens};

verus! {

/// Which page a text was extracted from.
#[derive(Clone, Copy, Debug, PartialEq, Eq, Structural)]
pub enum Source {
    /// The article the post links to.
    External,
    /// The discussion page of the post.
    PostPage,
}

/// A page to extract text from.
#[derive(Debug)]
pub struct Target {
    pub source: Source,
    pub url: String,
}

/// The text acquired for a post; `ok` is false when every source failed.
#[derive(Debug)]
pub struct RawContent {
    pub text: String,
    pub source: Source,
    pub ok: bool,
}

pub open spec fn post_url_spec(object_id: Seq<char>) -> Seq<char> {
    "https://news.ycombinator.com/item?id="@ + object_id
}

/// The discussion page of the post `object_id`.
pub fn post_url(object_id: &str) -> (r: String)
    ensures
        r@ == post_url_spec(object_id@),
{
    let mut r = String::from_str("https://news.ycombinator.com/item?id=");
    r.append(object_id);
    r
}

/// The pages to try for `hit`, in order: the linked article, followed by the
/// discussion page if `fallback` is set; the discussion page alone if nothing
/// is linked.
pub fn targets(hit: &Hit, fallback: bool) -> (r: Vec<Target>)
    ensures
        match hit.url {
            Some(u) => {
                &&& r@.len() == if fallback {
                    2int
                } else {
                    1
                }
                &&& r@[0].source == Source::External
                &&& r@[0].url@ == u@
                &&& fallback ==> r@[1].source == Source::PostPage && r@[1].url@ == post_url_spec(
                    hit.object_id@,
                )
            },
            None => {
                &&& r@.len() == 1
                &&& r@[0].source == Source::PostPage
                &&& r@[0].url@ == post_url_spec(hit.object_id@)
            },
        },
{
    let mut r: Vec<Target> = Vec::new();
    match &hit.url {
        Some(u) => {
            r.push(Target { source: Source::External, url: u.clone() });
            if fallback {
                r.push(Target { source: Source::PostPage, url: post_url(hit.object_id.as_str()) });
            }
        },
        None => {
            r.push(Target { source: Source::PostPage, url: post_url(hit.object_id.as_str()) });
        },
    }
    r
}

impl RawContent {
    /// The text extracted from a page of `source`, its whitespace collapsed.
    /// A page with no text counts as a failure.
    pub fn extracted(source: Source, page: &str) -> (r: RawContent)
        ensures
            r.text@ == joined(tokens(page@)),
            r.source == source,
            r.ok == (tokens(page@).len() > 0),
    {
        let text = normalize_whitespace(page);
        let ok = !text.as_str().is_empty();
        proof {
            lemma_tokens_nonempty(page@);
            lemma_joined_empty(tokens(page@));
        }
        RawContent { text, source, ok }
    }

    /// Nothing could be extracted.
    pub fn missing() -> (r: RawContent)
        ensures
            !r.ok,
            r.text@.len() == 0,
    {
        RawContent { text: String::new(), source: Source::PostPage, ok: false }
    }
}

/// Only an empty list of tokens joins to nothing.
proof fn lemma_joined_empty(ws: Seq<Seq<char>>)
    requires
        forall|k: int| 0 <= k < ws.len() ==> #[trigger] ws[k].len() > 0,
    ensures
        (joined(ws).len() == 0) == (ws.len() == 0),
    decreases ws.len(),
{
    if ws.len() > 1 {
        lemma_joined_empty(ws.drop_last());
    }
}

} // verus!
