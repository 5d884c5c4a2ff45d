//! The per-post decisions of a polling tick: whether a post's text needs
//! summarising at all, how a structured completion is read, and the message
//! that is delivered.

use vstd::prelude::*;
use crate::acquire::{post_url, post_url_spec, RawContent};
use crate::poll::Hit;
use crate::text::{count, tokens};

verus! {

/// Texts of fewer tokens than this are delivered as they are.
pub const SMALL_CONTENT_TOKENS: usize = 100;

/// What to do with a post's acquired text.
#[derive(Clone, Copy, Debug, PartialEq, Eq, Structural)]
pub enum Treatment {
    /// Nothing was acquired: no message for this post.
    Skip,
    /// Short enough to be its own summary.
    UseRaw,
    /// Needs the summariser.
    Summarize,
}

/// Decides how `raw` is turned into a summary.
pub fn treatment(raw: &RawContent) -> (r: Treatment)
    ensures
        r == if !raw.ok || tokens(raw.text@).len() == 0 {
            Treatment::Skip
        } else if tokens(raw.text@).len() < SMALL_CONTENT_TOKENS {
            Treatment::UseRaw
        } else {
            Treatment::Summarize
        },
{
    if !raw.ok {
        return Treatment::Skip;
    }
    let n = count(raw.text.as_str());
    if n == 0 {
        Treatment::Skip
    } else if n < SMALL_CONTENT_TOKENS {
        Treatment::UseRaw
    } else {
        Treatment::Summarize
    }
}

pub open spec fn source_part(hit: Hit) -> Seq<char> {
    match hit.url {
        Some(u) => "(<"@ + u@ + "|source>)"@,
        None => seq![],
    }
}

pub open spec fn message_spec(hit: Hit, summary: Seq<char>) -> Seq<char> {
    "- *"@ + hit.title@ + "*\n<"@ + post_url_spec(hit.object_id@) + " | post>"@ + source_part(
        hit,
    ) + " by "@ + hit.author@ + "\n"@ + summary
}

/// The message delivered for `hit`: its title, a link to the discussion, a
/// link to the article if there is one, its author, and `summary`.
pub fn format_message(hit: &Hit, summary: &str) -> (r: String)
    ensures
        r@ == message_spec(*hit, summary@),
{
    let mut r = String::from_str("- *");
    r.append(hit.title.as_str());
    r.append("*\n<");
    let post = post_url(hit.object_id.as_str());
    r.append(post.as_str());
    r.append(" | post>");
    match &hit.url {
        Some(u) => {
            r.append("(<");
            r.append(u.as_str());
            r.append("|source>)");
        },
        None => {},
    }
    r.append(" by ");
    r.append(hit.author.as_str());
    r.append("\n");
    r.append(summary);
    r
}

/// `i` is the first position of `c` in `s`.
pub open spec fn is_first(s: Seq<char>, c: char, i: int) -> bool {
    0 <= i < s.len() && s[i] == c && forall|k: int| 0 <= k < i ==> s[k] != c
}

/// `j` is the last position of `c` in `s`.
pub open spec fn is_last(s: Seq<char>, c: char, j: int) -> bool {
    0 <= j < s.len() && s[j] == c && forall|k: int| j < k < s.len() ==> s[k] != c
}

/// The structured block of a completion: from its first `{` to its last `}`,
/// both included; `None` unless a `{` comes before a `}`.
pub fn structured_block(text: &str) -> (r: Option<String>)
    ensures
        r is Some <==> exists|i: int, j: int|
            is_first(text@, '{', i) && is_last(text@, '}', j) && i < j,
        forall|i: int, j: int|
            is_first(text@, '{', i) && is_last(text@, '}', j) && i < j ==> r is Some
                && r->Some_0@ == text@.subrange(i, j + 1),
{
    let n = text.unicode_len();
    let mut first: Option<usize> = None;
    let mut last: Option<usize> = None;
    let mut idx: usize = 0;
    for c in it: text.chars()
        invariant
            it.seq() == text@,
            n == text@.len(),
            idx == it.index(),
            idx <= n,
            match first {
                Some(i) => is_first(text@, '{', i as int) && i < idx,
                None => forall|k: int| 0 <= k < idx ==> text@[k] != '{',
            },
            match last {
                Some(j) => 0 <= j < idx && text@[j as int] == '}' && forall|k: int|
                    j < k < idx ==> text@[k] != '}',
                None => forall|k: int| 0 <= k < idx ==> text@[k] != '}',
            },
    {
        assert(text@[idx as int] == c);
        if c == '{' && first.is_none() {
            first = Some(idx);
        }
        if c == '}' {
            last = Some(idx);
        }
        idx = idx + 1;
    }
    match (first, last) {
        (Some(i), Some(j)) => {
            assert(is_first(text@, '{', i as int) && is_last(text@, '}', j as int));
            if i < j {
                Some(String::from_str(text.substring_char(i, j + 1)))
            } else {
                proof {
                    assert forall|a: int, b: int|
                        is_first(text@, '{', a) && is_last(text@, '}', b) implies !(a < b) by {
                        assert(a == i);
                        assert(b == j);
                    }
                }
                None
            }
        },
        _ => {
            proof {
                assert forall|a: int, b: int|
                    is_first(text@, '{', a) && is_last(text@, '}', b) implies !(a < b) by {
                    assert(text@[a] == '{' && text@[b] == '}');
                }
            }
            None
        },
    }
}

/// The text a structured completion was read into, or a fixed placeholder
/// where it could not be read.
pub fn summary_or_placeholder(parsed: Option<String>) -> (r: String)
    ensures
        r@ == match parsed {
            Some(s) => if s@.len() > 0 {
                s@
            } else {
                PLACEHOLDER@
            },
            None => PLACEHOLDER@,
        },
        r@.len() > 0,
{
    proof {
        reveal_strlit("(summary unavailable)");
    }
    match parsed {
        Some(s) => if !s.as_str().is_empty() {
            s
        } else {
            String::from_str(PLACEHOLDER)
        },
        None => String::from_str(PLACEHOLDER),
    }
}

/// Stands in for a summary that could not be read.
pub const PLACEHOLDER: &'static str = "(summary unavailable)";

} // verus!
